//! Plugin host: loads and manages sandboxed WASM plugins.
//!
//! Plugins run in a sandbox with a capability-based API. They can read
//! strokes, add toolbar buttons, register export formats and listen to
//! document events; they cannot reach the file system or the network, nor
//! change other plugins' state.

use vstd::prelude::*;
use vstd::string::*;
use crate::strmap::StrMap;
use crate::text::{concat2, joined_path_of, path_join, same_text};

verus! {

/// Capabilities a plugin can request.
#[derive(Debug, Clone, Copy, PartialEq, Eq, Structural, Hash)]
pub enum PluginCapability {
    /// Read stroke data on the current page.
    ReadStrokes,
    /// Modify strokes (add/remove).
    WriteStrokes,
    /// Add items to the toolbar.
    ToolbarExtension,
    /// Register a custom export format.
    ExportFormat,
    /// Listen to document events (page change, stroke add/remove).
    DocumentEvents,
    /// Access settings storage (key-value, sandboxed per plugin).
    Settings,
    /// Custom rendering on the canvas overlay.
    CanvasOverlay,
}

/// State of a loaded plugin.
#[derive(Debug, Clone, PartialEq, Eq)]
pub enum PluginState {
    Loading,
    Active,
    Paused,
    Error(String),
    Unloaded,
}

/// Plugin metadata, as read from a plugin's manifest.
#[derive(Debug, Clone)]
pub struct PluginManifest {
    pub name: String,
    pub version: String,
    pub author: String,
    pub description: String,
    /// Requested capabilities.
    pub capabilities: Vec<PluginCapability>,
    /// WASM module file name.
    pub module: String,
    /// Icon path (relative to the plugin directory).
    pub icon: Option<String>,
    /// Minimum S Notes version.
    pub min_app_version: Option<String>,
}

/// A loaded plugin.
pub struct LoadedPlugin {
    pub manifest: PluginManifest,
    pub state: PluginState,
    /// The plugin's directory.
    pub path: String,
    pub granted_capabilities: Vec<PluginCapability>,
    /// The plugin's sandboxed settings.
    pub settings: StrMap<String>,
}

/// Why a plugin could not be loaded.
pub enum PluginError {
    /// The module does not start with the WASM magic number.
    InvalidModule,
    /// The manifest names a module file that does not exist (its path).
    ModuleNotFound(String),
}

impl PluginError {
    /// A message describing the error.
    pub fn message(&self) -> (res: String)
        ensures
            res@ == match self {
                PluginError::InvalidModule => "Invalid WASM module: bad magic number"@,
                PluginError::ModuleNotFound(p) => "WASM module not found: "@ + p@,
            },
    {
        match self {
            PluginError::InvalidModule => "Invalid WASM module: bad magic number".to_string(),
            PluginError::ModuleNotFound(p) => concat2("WASM module not found: ", p.as_str()),
        }
    }
}

/// The four bytes every WASM module starts with: `\0asm`.
pub open spec fn wasm_magic() -> Seq<u8> {
    seq![0u8, 0x61u8, 0x73u8, 0x6du8]
}

/// Whether `bytes` starts with the WASM magic number.
pub open spec fn has_wasm_magic(bytes: Seq<u8>) -> bool {
    bytes.len() >= 4 && bytes.subrange(0, 4) == wasm_magic()
}

/// Whether a plugin carries the given name.
pub open spec fn named(p: LoadedPlugin, name: Seq<char>) -> bool {
    p.manifest.name@ == name
}

/// `i` is the position of the first plugin named `name`.
pub open spec fn first_named(s: Seq<LoadedPlugin>, name: Seq<char>, i: int) -> bool {
    &&& 0 <= i < s.len()
    &&& named(s[i], name)
    &&& forall|j: int| 0 <= j < i ==> !named(#[trigger] s[j], name)
}

/// Some plugin is named `name`.
pub open spec fn any_named(s: Seq<LoadedPlugin>, name: Seq<char>) -> bool {
    exists|i: int| 0 <= i < s.len() && named(#[trigger] s[i], name)
}

/// The position of the first plugin named `name` (meaningful where one is).
pub open spec fn first_index(s: Seq<LoadedPlugin>, name: Seq<char>) -> int {
    choose|i: int| first_named(s, name, i)
}

/// The first-named position is unique, and exists exactly when some plugin has
/// the name.
pub proof fn lemma_first_index(s: Seq<LoadedPlugin>, name: Seq<char>, i: int)
    requires
        first_named(s, name, i),
    ensures
        first_index(s, name) == i,
        any_named(s, name),
{
    let k = first_index(s, name);
    assert(first_named(s, name, k));
    if k < i {
        assert(!named(s[k], name));
    }
    if i < k {
        assert(!named(s[i], name));
    }
}

/// `s` with the plugin at position `i` put in state `st`.
pub open spec fn with_state(s: Seq<LoadedPlugin>, i: int, st: PluginState) -> Seq<LoadedPlugin> {
    s.update(i, LoadedPlugin { state: st, ..s[i] })
}

/// Resuming a plugin right after pausing it succeeds and gives back the
/// plugin list as it was, when the plugin was active before.
pub proof fn lemma_resume_undoes_pause(s: Seq<LoadedPlugin>, name: Seq<char>)
    requires
        any_named(s, name),
        s[first_index(s, name)].state is Active,
    ensures
        ({
            let i = first_index(s, name);
            let paused = with_state(s, i, PluginState::Paused);
            &&& any_named(paused, name)
            &&& first_index(paused, name) == i
            &&& paused[i].state is Paused
            &&& with_state(paused, i, PluginState::Active) == s
        }),
{
    let j = choose|j: int| 0 <= j < s.len() && named(#[trigger] s[j], name);
    let i = first_index(s, name);
    assert(first_named(s, name, i)) by {
        first_exists(s, name, j);
    }
    let paused = with_state(s, i, PluginState::Paused);
    assert(first_named(paused, name, i)) by {
        assert forall|k: int| 0 <= k < i implies !named(#[trigger] paused[k], name) by {
            assert(paused[k] == s[k]);
        }
    }
    lemma_first_index(paused, name, i);
    assert(with_state(paused, i, PluginState::Active) =~= s);
}

/// Where some plugin has the name, a first one does.
proof fn first_exists(s: Seq<LoadedPlugin>, name: Seq<char>, j: int)
    requires
        0 <= j < s.len(),
        named(s[j], name),
    ensures
        first_named(s, name, first_index(s, name)),
    decreases j,
{
    if forall|k: int| 0 <= k < j ==> !named(#[trigger] s[k], name) {
        assert(first_named(s, name, j));
    } else {
        let k = choose|k: int| 0 <= k < j && named(#[trigger] s[k], name);
        first_exists(s, name, k);
    }
}

/// `s` without the plugins named `name`, in their order.
pub open spec fn remove_named(s: Seq<LoadedPlugin>, name: Seq<char>) -> Seq<LoadedPlugin>
    decreases s.len(),
{
    if s.len() == 0 {
        Seq::empty()
    } else {
        let rest = remove_named(s.drop_last(), name);
        if named(s.last(), name) {
            rest
        } else {
            rest.push(s.last())
        }
    }
}

/// Removing the plugins named `name` shortens the list exactly when one of
/// them carries the name.
pub proof fn lemma_remove_named_len(s: Seq<LoadedPlugin>, name: Seq<char>)
    ensures
        remove_named(s, name).len() <= s.len(),
        remove_named(s, name).len() < s.len() <==> any_named(s, name),
    decreases s.len(),
{
    if s.len() > 0 {
        let d = s.drop_last();
        lemma_remove_named_len(d, name);
        if any_named(d, name) {
            let j = choose|j: int| 0 <= j < d.len() && named(#[trigger] d[j], name);
            assert(s[j] == d[j]);
        }
        if any_named(s, name) && !named(s.last(), name) {
            let j = choose|j: int| 0 <= j < s.len() && named(#[trigger] s[j], name);
            assert(d[j] == s[j]);
        }
        if named(s.last(), name) {
            assert(named(s[s.len() - 1], name));
        }
    }
}

/// The names of the active plugins at the listed positions, in list order;
/// positions past the end of the plugin list are skipped.
pub open spec fn recipients(plugins: Seq<LoadedPlugin>, idxs: Seq<usize>) -> Seq<Seq<char>>
    decreases idxs.len(),
{
    if idxs.len() == 0 {
        Seq::empty()
    } else {
        let rest = recipients(plugins, idxs.drop_last());
        let i = idxs.last() as int;
        if i < plugins.len() && plugins[i].state is Active {
            rest.push(plugins[i].manifest.name@)
        } else {
            rest
        }
    }
}

/// The capabilities granted to a plugin are ones its manifest declares, each
/// listed once.
pub open spec fn grants_declared(p: LoadedPlugin) -> bool {
    &&& p.granted_capabilities@.no_duplicates()
    &&& forall|j: int|
        0 <= j < p.granted_capabilities@.len() ==> p.manifest.capabilities@.contains(
            #[trigger] p.granted_capabilities@[j],
        )
}

/// A freshly loaded plugin: active, at `path`, with no granted capabilities and
/// no settings.
pub open spec fn fresh_load(p: LoadedPlugin, path: Seq<char>) -> bool {
    &&& p.state is Active
    &&& p.path@ == path
    &&& p.granted_capabilities@.len() == 0
    &&& p.settings.wf()
    &&& forall|k: Seq<char>| #[trigger] p.settings.lookup(k) is None
}

/// The manifest given to a module loaded directly from its bytes.
pub open spec fn dev_manifest(m: PluginManifest, name: Seq<char>) -> bool {
    &&& m.name@ == name
    &&& m.version@ == "dev"@
    &&& m.author@ == "Developer"@
    &&& m.description@ == "Development plugin"@
    &&& m.capabilities@.len() == 0
    &&& m.module@ == name + ".wasm"@
    &&& m.icon is None
    &&& m.min_app_version is None
}

/// Manages the plugin lifecycle.
pub struct PluginHost {
    plugins: Vec<LoadedPlugin>,
    plugin_dir: String,
    /// Event name to the positions of the plugins listening to it.
    event_listeners: StrMap<Vec<usize>>,
}

impl PluginHost {
    /// Every plugin's settings and the listener table are well formed.
    pub closed spec fn wf(&self) -> bool {
        &&& forall|i: int| 0 <= i < self.plugins@.len() ==> (#[trigger] self.plugins@[i]).settings.wf()
        &&& forall|i: int| 0 <= i < self.plugins@.len() ==> grants_declared(#[trigger] self.plugins@[i])
        &&& self.event_listeners.wf()
    }

    /// In a well-formed host every plugin holds only capabilities its
    /// manifest declares, each once.
    pub proof fn lemma_grants_declared(&self)
        requires
            self.wf(),
        ensures
            forall|i: int| 0 <= i < self.loaded().len() ==> grants_declared(#[trigger] self.loaded()[i]),
    {
    }

    /// The loaded plugins, in load order.
    pub closed spec fn loaded(&self) -> Seq<LoadedPlugin> {
        self.plugins@
    }

    /// The plugin directory.
    pub closed spec fn dir(&self) -> Seq<char> {
        self.plugin_dir@
    }

    /// The positions of the plugins listening to `event`, in registration order.
    pub closed spec fn listeners(&self, event: Seq<char>) -> Seq<usize> {
        match self.event_listeners.lookup(event) {
            Some(v) => v@,
            None => Seq::empty(),
        }
    }

    /// The sandboxed setting `key` of the first plugin named `plugin_name`,
    /// if there is such a plugin and it has that setting.
    pub open spec fn setting_of(&self, plugin_name: Seq<char>, key: Seq<char>) -> Option<Seq<char>> {
        if any_named(self.loaded(), plugin_name) {
            match self.loaded()[first_index(self.loaded(), plugin_name)].settings.lookup(key) {
                Some(v) => Some(v@),
                None => None,
            }
        } else {
            None
        }
    }

    /// A host with no plugins and no listeners, for the given plugin directory.
    pub fn new(plugin_dir: &str) -> (res: Self)
        ensures
            res.wf(),
            res.loaded().len() == 0,
            res.dir() == plugin_dir@,
            forall|e: Seq<char>| #[trigger] res.listeners(e).len() == 0,
    {
        PluginHost {
            plugins: Vec::new(),
            plugin_dir: plugin_dir.to_string(),
            event_listeners: StrMap::new(),
        }
    }

    /// The plugin directory.
    pub fn plugin_dir(&self) -> (res: &str)
        ensures
            res@ == self.dir(),
    {
        self.plugin_dir.as_str()
    }

    /// The position of the first plugin named `name`.
    fn find(&self, name: &str) -> (res: Option<usize>)
        ensures
            match res {
                Some(i) => first_named(self.plugins@, name@, i as int),
                None => !any_named(self.plugins@, name@),
            },
    {
        let mut i: usize = 0;
        while i < self.plugins.len()
            invariant
                i <= self.plugins@.len(),
                forall|j: int| 0 <= j < i ==> !named(#[trigger] self.plugins@[j], name@),
            decreases self.plugins@.len() - i,
        {
            if same_text(self.plugins[i].manifest.name.as_str(), name) {
                return Some(i);
            }
            i = i + 1;
        }
        None
    }

    /// Add a plugin whose manifest was read from the plugin directory `dir`.
    /// `module_exists` tells whether the manifest's module file exists in that
    /// directory; without it the plugin is refused.
    pub fn load_from_manifest(&mut self, manifest: PluginManifest, dir: &str, module_exists: bool) -> (res:
        Result<(), PluginError>)
        requires
            old(self).wf(),
        ensures
            final(self).wf(),
            final(self).dir() == old(self).dir(),
            forall|e: Seq<char>| #[trigger] final(self).listeners(e) == old(self).listeners(e),
            match res {
                Ok(()) => {
                    &&& module_exists
                    &&& final(self).loaded().len() == old(self).loaded().len() + 1
                    &&& final(self).loaded().drop_last() == old(self).loaded()
                    &&& final(self).loaded().last().manifest == manifest
                    &&& fresh_load(final(self).loaded().last(), dir@)
                },
                Err(e) => {
                    &&& !module_exists
                    &&& e == PluginError::ModuleNotFound(
                        e->ModuleNotFound_0,
                    )
                    &&& e->ModuleNotFound_0@ == joined_path_of(dir@, manifest.module@)
                    &&& final(self).loaded() == old(self).loaded()
                },
            },
    {
        if !module_exists {
            let missing = path_join(dir, manifest.module.as_str());
            return Err(PluginError::ModuleNotFound(missing));
        }
        let plugin = LoadedPlugin {
            manifest,
            state: PluginState::Active,
            path: dir.to_string(),
            granted_capabilities: Vec::new(),
            settings: StrMap::new(),
        };
        self.plugins.push(plugin);
        assert(self.plugins@.drop_last() =~= old(self).plugins@);
        Ok(())
    }

    /// Load a WASM module directly from its bytes (for development).
    pub fn load_wasm(&mut self, name: &str, wasm_bytes: &[u8]) -> (res: Result<(), PluginError>)
        requires
            old(self).wf(),
        ensures
            final(self).wf(),
            final(self).dir() == old(self).dir(),
            forall|e: Seq<char>| #[trigger] final(self).listeners(e) == old(self).listeners(e),
            res is Ok <==> has_wasm_magic(wasm_bytes@),
            match res {
                Ok(()) => {
                    &&& final(self).loaded().len() == old(self).loaded().len() + 1
                    &&& final(self).loaded().drop_last() == old(self).loaded()
                    &&& dev_manifest(final(self).loaded().last().manifest, name@)
                    &&& fresh_load(final(self).loaded().last(), joined_path_of(old(self).dir(), name@))
                },
                Err(e) => {
                    &&& e is InvalidModule
                    &&& final(self).loaded() == old(self).loaded()
                },
            },
    {
        if wasm_bytes.len() < 4 || wasm_bytes[0] != 0u8 || wasm_bytes[1] != 0x61u8 || wasm_bytes[2]
            != 0x73u8 || wasm_bytes[3] != 0x6du8 {
            proof {
                if has_wasm_magic(wasm_bytes@) {
                    assert(wasm_bytes@.subrange(0, 4)[0] == wasm_bytes@[0]);
                    assert(wasm_bytes@.subrange(0, 4)[1] == wasm_bytes@[1]);
                    assert(wasm_bytes@.subrange(0, 4)[2] == wasm_bytes@[2]);
                    assert(wasm_bytes@.subrange(0, 4)[3] == wasm_bytes@[3]);
                }
            }
            return Err(PluginError::InvalidModule);
        }
        assert(wasm_bytes@.subrange(0, 4) =~= wasm_magic());
        proof {
            reveal_strlit(".wasm");
        }
        let manifest = PluginManifest {
            name: name.to_string(),
            version: "dev".to_string(),
            author: "Developer".to_string(),
            description: "Development plugin".to_string(),
            capabilities: Vec::new(),
            module: concat2(name, ".wasm"),
            icon: None,
            min_app_version: None,
        };
        let plugin = LoadedPlugin {
            manifest,
            state: PluginState::Active,
            path: path_join(self.plugin_dir.as_str(), name),
            granted_capabilities: Vec::new(),
            settings: StrMap::new(),
        };
        self.plugins.push(plugin);
        assert(self.plugins@.drop_last() =~= old(self).plugins@);
        Ok(())
    }

    /// Grant a capability to the first plugin with the given name, when its
    /// manifest declares that capability; one that is not declared is
    /// refused. A capability already granted is not listed twice.
    pub fn grant_capability(&mut self, plugin_name: &str, cap: PluginCapability) -> (res: bool)
        requires
            old(self).wf(),
        ensures
            final(self).wf(),
            final(self).dir() == old(self).dir(),
            forall|e: Seq<char>| #[trigger] final(self).listeners(e) == old(self).listeners(e),
            forall|i: int|
                0 <= i < final(self).loaded().len() ==> grants_declared(
                    #[trigger] final(self).loaded()[i],
                ),
            res == (any_named(old(self).loaded(), plugin_name@) && old(self).loaded()[first_index(
                old(self).loaded(),
                plugin_name@,
            )].manifest.capabilities@.contains(cap)),
            res ==> {
                let i = first_index(old(self).loaded(), plugin_name@);
                let p = old(self).loaded()[i];
                final(self).loaded() == old(self).loaded().update(
                    i,
                    (LoadedPlugin {
                        granted_capabilities: final(self).loaded()[i].granted_capabilities,
                        ..p
                    }),
                ) && final(self).loaded()[i].granted_capabilities@ == if p.granted_capabilities@.contains(
                    cap,
                ) {
                    p.granted_capabilities@
                } else {
                    p.granted_capabilities@.push(cap)
                }
            },
            !res ==> final(self).loaded() == old(self).loaded(),
    {
        match self.find(plugin_name) {
            Some(i) => {
                proof {
                    lemma_first_index(self.plugins@, plugin_name@, i as int);
                }
                let mut declared = false;
                let mut m: usize = 0;
                while m < self.plugins[i].manifest.capabilities.len()
                    invariant
                        i < self.plugins@.len(),
                        m <= self.plugins@[i as int].manifest.capabilities@.len(),
                        declared <==> exists|j: int|
                            0 <= j < m && self.plugins@[i as int].manifest.capabilities@[j] == cap,
                    decreases self.plugins@[i as int].manifest.capabilities@.len() - m,
                {
                    if self.plugins[i].manifest.capabilities[m] == cap {
                        declared = true;
                    }
                    m = m + 1;
                }
                proof {
                    let caps = self.plugins@[i as int].manifest.capabilities@;
                    if declared {
                        let j = choose|j: int| 0 <= j < m && caps[j] == cap;
                        assert(caps.contains(cap));
                    } else if caps.contains(cap) {
                        let j = choose|j: int| 0 <= j < caps.len() && caps[j] == cap;
                        assert(caps[j] == cap);
                    }
                }
                if !declared {
                    return false;
                }
                let mut p = self.plugins.remove(i);
                let ghost before = p.granted_capabilities@;
                assert(grants_declared(old(self).plugins@[i as int]));
                let mut present = false;
                let mut k: usize = 0;
                while k < p.granted_capabilities.len()
                    invariant
                        k <= p.granted_capabilities@.len(),
                        present <==> exists|j: int| 0 <= j < k && p.granted_capabilities@[j] == cap,
                    decreases p.granted_capabilities@.len() - k,
                {
                    if p.granted_capabilities[k] == cap {
                        present = true;
                    }
                    k = k + 1;
                }
                if !present {
                    p.granted_capabilities.push(cap);
                } else {
                    let ghost j = choose|j: int| 0 <= j < k && p.granted_capabilities@[j] == cap;
                    assert(before[j] == cap);
                }
                proof {
                    if !present && before.contains(cap) {
                        let j = choose|j: int| 0 <= j < before.len() && before[j] == cap;
                        assert(before[j] == cap);
                    }
                    assert(grants_declared(p)) by {
                        if !present {
                            assert forall|a: int, b: int|
                                0 <= a < p.granted_capabilities@.len() && 0 <= b
                                    < p.granted_capabilities@.len() && a != b implies
                                p.granted_capabilities@[a] != p.granted_capabilities@[b] by {
                                if a == before.len() {
                                    assert(before[b] == p.granted_capabilities@[b]);
                                } else if b == before.len() {
                                    assert(before[a] == p.granted_capabilities@[a]);
                                } else {
                                    assert(before[a] == p.granted_capabilities@[a]);
                                    assert(before[b] == p.granted_capabilities@[b]);
                                }
                            }
                            assert forall|j: int| 0 <= j < p.granted_capabilities@.len() implies
                                p.manifest.capabilities@.contains(
                                #[trigger] p.granted_capabilities@[j],
                            ) by {
                                if j < before.len() {
                                    assert(before[j] == p.granted_capabilities@[j]);
                                }
                            }
                        }
                    }
                }
                self.plugins.insert(i, p);
                assert(self.plugins@ =~= old(self).plugins@.update(i as int, self.plugins@[i as int]));
                true
            },
            None => false,
        }
    }

    /// All loaded plugins, in load order.
    pub fn list_plugins(&self) -> (res: &[LoadedPlugin])
        ensures
            res@ == self.loaded(),
    {
        self.plugins.as_slice()
    }

    /// The first plugin with the given name.
    pub fn get_plugin(&self, name: &str) -> (res: Option<&LoadedPlugin>)
        ensures
            match res {
                Some(p) => any_named(self.loaded(), name@) && *p == self.loaded()[first_index(
                    self.loaded(),
                    name@,
                )],
                None => !any_named(self.loaded(), name@),
            },
    {
        match self.find(name) {
            Some(i) => {
                proof {
                    lemma_first_index(self.plugins@, name@, i as int);
                }
                Some(&self.plugins[i])
            },
            None => None,
        }
    }

    /// Pause the first plugin with the given name.
    pub fn pause_plugin(&mut self, name: &str) -> (res: bool)
        requires
            old(self).wf(),
        ensures
            final(self).wf(),
            final(self).dir() == old(self).dir(),
            forall|e: Seq<char>| #[trigger] final(self).listeners(e) == old(self).listeners(e),
            res == any_named(old(self).loaded(), name@),
            res ==> {
                let i = first_index(old(self).loaded(), name@);
                final(self).loaded() == with_state(old(self).loaded(), i, PluginState::Paused)
            },
            !res ==> final(self).loaded() == old(self).loaded(),
    {
        match self.find(name) {
            Some(i) => {
                proof {
                    lemma_first_index(self.plugins@, name@, i as int);
                }
                let mut p = self.plugins.remove(i);
                p.state = PluginState::Paused;
                self.plugins.insert(i, p);
                assert(self.plugins@ =~= old(self).plugins@.update(i as int, self.plugins@[i as int]));
                true
            },
            None => false,
        }
    }

    /// Resume the first plugin with the given name, if it is paused.
    pub fn resume_plugin(&mut self, name: &str) -> (res: bool)
        requires
            old(self).wf(),
        ensures
            final(self).wf(),
            final(self).dir() == old(self).dir(),
            forall|e: Seq<char>| #[trigger] final(self).listeners(e) == old(self).listeners(e),
            res == (any_named(old(self).loaded(), name@) && old(self).loaded()[first_index(
                old(self).loaded(),
                name@,
            )].state is Paused),
            res ==> {
                let i = first_index(old(self).loaded(), name@);
                final(self).loaded() == with_state(old(self).loaded(), i, PluginState::Active)
            },
            !res ==> final(self).loaded() == old(self).loaded(),
    {
        match self.find(name) {
            Some(i) => {
                proof {
                    lemma_first_index(self.plugins@, name@, i as int);
                }
                let paused = match self.plugins[i].state {
                    PluginState::Paused => true,
                    _ => false,
                };
                if paused {
                    let mut p = self.plugins.remove(i);
                    p.state = PluginState::Active;
                    self.plugins.insert(i, p);
                    assert(self.plugins@ =~= old(self).plugins@.update(
                        i as int,
                        self.plugins@[i as int],
                    ));
                    return true;
                }
                false
            },
            None => false,
        }
    }

    /// Unload every plugin with the given name; reports whether any was loaded.
    pub fn unload_plugin(&mut self, name: &str) -> (res: bool)
        requires
            old(self).wf(),
        ensures
            final(self).wf(),
            final(self).dir() == old(self).dir(),
            forall|e: Seq<char>| #[trigger] final(self).listeners(e) == old(self).listeners(e),
            final(self).loaded() == remove_named(old(self).loaded(), name@),
            res == (final(self).loaded().len() < old(self).loaded().len()),
            res == any_named(old(self).loaded(), name@),
    {
        let before = self.plugins.len();
        let mut rest: Vec<LoadedPlugin> = Vec::new();
        std::mem::swap(&mut rest, &mut self.plugins);
        let ghost orig = rest@;
        assert(orig.len() <= usize::MAX) by {
            assert(rest@.len() == rest.len());
        }
        let mut kept: Vec<LoadedPlugin> = Vec::new();
        let mut n: usize = 0;
        while rest.len() > 0
            invariant
                orig.len() <= usize::MAX,
                n + rest@.len() == orig.len(),
                rest@ == orig.skip(n as int),
                kept@ == remove_named(orig.take(n as int), name@),
                forall|i: int| 0 <= i < orig.len() ==> (#[trigger] orig[i]).settings.wf(),
                forall|i: int| 0 <= i < kept@.len() ==> (#[trigger] kept@[i]).settings.wf(),
                forall|i: int| 0 <= i < orig.len() ==> grants_declared(#[trigger] orig[i]),
                forall|i: int| 0 <= i < kept@.len() ==> grants_declared(#[trigger] kept@[i]),
            decreases rest@.len(),
        {
            let p = rest.remove(0);
            assert(orig.take(n + 1).drop_last() =~= orig.take(n as int));
            assert(orig.take(n + 1).last() == orig[n as int]);
            assert(rest@ =~= orig.skip(n + 1));
            if !same_text(p.manifest.name.as_str(), name) {
                kept.push(p);
            }
            n = n + 1;
        }
        assert(orig.take(n as int) =~= orig);
        self.plugins = kept;
        proof {
            lemma_remove_named_len(orig, name@);
        }
        self.plugins.len() < before
    }

    /// Store a sandboxed setting for the first plugin with the given name.
    pub fn set_plugin_setting(&mut self, plugin_name: &str, key: &str, value: &str) -> (res: bool)
        requires
            old(self).wf(),
        ensures
            final(self).wf(),
            final(self).dir() == old(self).dir(),
            forall|e: Seq<char>| #[trigger] final(self).listeners(e) == old(self).listeners(e),
            res == any_named(old(self).loaded(), plugin_name@),
            res ==> {
                let i = first_index(old(self).loaded(), plugin_name@);
                let p = old(self).loaded()[i];
                let q = final(self).loaded()[i];
                &&& final(self).loaded() == old(self).loaded().update(
                    i,
                    (LoadedPlugin { settings: q.settings, ..p }),
                )
                &&& q.settings.lookup(key@) matches Some(v) && v@ == value@
                &&& forall|k: Seq<char>| k != key@ ==> #[trigger] q.settings.lookup(k) == p.settings.lookup(k)
            },
            res ==> final(self).setting_of(plugin_name@, key@) == Some(value@),
            !res ==> final(self).loaded() == old(self).loaded(),
    {
        match self.find(plugin_name) {
            Some(i) => {
                proof {
                    lemma_first_index(self.plugins@, plugin_name@, i as int);
                }
                let mut p = self.plugins.remove(i);
                p.settings.insert(key.to_string(), value.to_string());
                self.plugins.insert(i, p);
                assert(self.plugins@ =~= old(self).plugins@.update(i as int, self.plugins@[i as int]));
                proof {
                    assert forall|j: int| 0 <= j < i implies !named(#[trigger] self.plugins@[j], plugin_name@) by {
                        assert(self.plugins@[j] == old(self).plugins@[j]);
                    }
                    lemma_first_index(self.plugins@, plugin_name@, i as int);
                }
                true
            },
            None => false,
        }
    }

    /// A sandboxed setting of the first plugin with the given name.
    pub fn get_plugin_setting(&self, plugin_name: &str, key: &str) -> (res: Option<&str>)
        requires
            self.wf(),
        ensures
            match res {
                Some(v) => self.setting_of(plugin_name@, key@) == Some(v@),
                None => self.setting_of(plugin_name@, key@) is None,
            },
    {
        match self.find(plugin_name) {
            Some(i) => {
                proof {
                    lemma_first_index(self.plugins@, plugin_name@, i as int);
                }
                match self.plugins[i].settings.get(key) {
                    Some(s) => Some(s.as_str()),
                    None => None,
                }
            },
            None => None,
        }
    }

    /// The plugins an event is delivered to: the names of the active plugins
    /// registered as listeners of `event`, in registration order.
    pub fn broadcast_event(&self, event: &str, _data: &str) -> (res: Vec<String>)
        requires
            self.wf(),
        ensures
            res@.map_values(|s: String| s@) == recipients(self.loaded(), self.listeners(event@)),
    {
        let mut out: Vec<String> = Vec::new();
        match self.event_listeners.get(event) {
            Some(listeners) => {
                let mut k: usize = 0;
                while k < listeners.len()
                    invariant
                        k <= listeners@.len(),
                        self.listeners(event@) == listeners@,
                        out@.map_values(|s: String| s@) == recipients(
                            self.plugins@,
                            listeners@.take(k as int),
                        ),
                    decreases listeners@.len() - k,
                {
                    let idx = listeners[k];
                    assert(listeners@.take(k + 1).drop_last() =~= listeners@.take(k as int));
                    if idx < self.plugins.len() {
                        let active = match self.plugins[idx].state {
                            PluginState::Active => true,
                            _ => false,
                        };
                        if active {
                            out.push(self.plugins[idx].manifest.name.clone());
                        }
                    }
                    assert(out@.map_values(|s: String| s@) =~= recipients(
                        self.plugins@,
                        listeners@.take(k + 1),
                    ));
                    k = k + 1;
                }
                assert(listeners@.take(k as int) =~= listeners@);
            },
            None => {
                assert(out@.map_values(|s: String| s@) =~= Seq::<Seq<char>>::empty());
            },
        }
        out
    }

    /// Register the first plugin with the given name as a listener for an
    /// event.
    pub fn register_listener(&mut self, plugin_name: &str, event: &str) -> (res: bool)
        requires
            old(self).wf(),
        ensures
            final(self).wf(),
            final(self).dir() == old(self).dir(),
            final(self).loaded() == old(self).loaded(),
            res == any_named(old(self).loaded(), plugin_name@),
            res ==> final(self).listeners(event@) == old(self).listeners(event@).push(
                first_index(old(self).loaded(), plugin_name@) as usize,
            ),
            !res ==> final(self).listeners(event@) == old(self).listeners(event@),
            forall|e: Seq<char>| e != event@ ==> #[trigger] final(self).listeners(e) == old(self).listeners(e),
    {
        match self.find(plugin_name) {
            Some(i) => {
                proof {
                    lemma_first_index(self.plugins@, plugin_name@, i as int);
                }
                let mut list = match self.event_listeners.remove(event) {
                    Some(v) => v,
                    None => Vec::new(),
                };
                list.push(i);
                self.event_listeners.insert(event.to_string(), list);
                true
            },
            None => false,
        }
    }
}

impl Default for PluginHost {
    fn default() -> (res: Self)
        ensures
            res.wf(),
            res.loaded().len() == 0,
            res.dir() == "plugins"@,
            forall|e: Seq<char>| #[trigger] res.listeners(e).len() == 0,
    {
        Self::new("plugins")
    }
}

} // verus!
