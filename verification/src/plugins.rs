//! Plugins: their metadata, the hooks they register for and the manager
//! that holds them.
use vstd::prelude::*;
use crate::disc::DiscInfo;
use crate::error::DiskRipperError;
use crate::job::Job;
use crate::text::{owned, str_eq};

verus! {

/// What a plugin says of itself.
#[derive(Debug, Clone)]
pub struct PluginMetadata {
    pub name: String,
    pub version: String,
    pub author: String,
    pub description: String,
    pub hooks: Vec<String>,
}

/// What a plugin can do.
#[derive(Debug, Clone, Copy, PartialEq, Eq, Structural)]
pub enum PluginCapability {
    DiscIdentifier,
    MetadataProvider,
    AudioProcessor,
    VideoProcessor,
    ExportFormat,
    UiExtension,
}

/// What plugin metadata says, its strings taken as characters: name,
/// version, author, description and hooks.
pub open spec fn metadata_text(m: PluginMetadata) -> (Seq<char>, Seq<char>, Seq<char>, Seq<char>, Seq<Seq<char>>) {
    (m.name@, m.version@, m.author@, m.description@, names_view(m.hooks@))
}

/// A plugin, implemented by its authors.
pub trait Plugin {
    /// What the plugin says of itself.
    spec fn described(&self) -> PluginMetadata;

    /// What the plugin can do.
    spec fn capability_list(&self) -> Seq<PluginCapability>;

    /// How many times the plugin was shut down.
    spec fn shutdowns(&self) -> nat;

    /// What the plugin says of itself.
    fn metadata(&self) -> (r: PluginMetadata)
        ensures
            metadata_text(r) == metadata_text(self.described()),
    ;

    /// What the plugin can do.
    fn capabilities(&self) -> (r: Vec<PluginCapability>)
        ensures
            r@ == self.capability_list(),
    ;

    /// Prepares the plugin for use.
    fn initialize(&mut self) -> Result<(), DiskRipperError>;

    /// Releases what the plugin holds; the plugin is shut down once more
    /// and still says and can do what it did.
    fn shutdown(&mut self)
        ensures
            final(self).shutdowns() == old(self).shutdowns() + 1,
            final(self).described() == old(self).described(),
            final(self).capability_list() == old(self).capability_list(),
    ;

    /// Called when a disc is inserted.
    fn on_disc_inserted(&self, disc_info: &DiscInfo) -> Result<(), DiskRipperError>;

    /// Called when a rip has finished.
    fn on_rip_complete(&self, job_info: &Job) -> Result<(), DiskRipperError>;
}

/// The hook table: for each hook name, the names of the plugins that
/// registered for it, in registration order.
pub open spec fn hook_view(t: Seq<(String, Vec<String>)>) -> Seq<(Seq<char>, Seq<Seq<char>>)> {
    t.map_values(|e: (String, Vec<String>)| (e.0@, names_view(e.1@)))
}

/// Names taken as characters.
pub open spec fn names_view(v: Seq<String>) -> Seq<Seq<char>> {
    v.map_values(|s: String| s@)
}

/// The index of the entry for `hook`.
pub open spec fn hook_index(t: Seq<(Seq<char>, Seq<Seq<char>>)>, hook: Seq<char>) -> Option<int>
    decreases t.len(),
{
    if t.len() == 0 {
        None
    } else if t.last().0 == hook {
        Some(t.len() - 1)
    } else {
        hook_index(t.drop_last(), hook)
    }
}

/// The hooks a plugin's metadata names.
pub open spec fn hook_names(m: PluginMetadata) -> Seq<Seq<char>> {
    names_view(m.hooks@)
}

/// The entry found for a hook is one of the table's.
proof fn lemma_hook_index_range(t: Seq<(Seq<char>, Seq<Seq<char>>)>, hook: Seq<char>)
    ensures
        hook_index(t, hook) matches Some(i) ==> 0 <= i < t.len(),
    decreases t.len(),
{
    if t.len() > 0 {
        lemma_hook_index_range(t.drop_last(), hook);
    }
}

/// The hook table with plugin `name` added to hook `hook`: appended to its
/// entry, or in a new entry.
pub open spec fn add_hook(t: Seq<(Seq<char>, Seq<Seq<char>>)>, hook: Seq<char>, name: Seq<char>) -> Seq<
    (Seq<char>, Seq<Seq<char>>),
> {
    match hook_index(t, hook) {
        Some(i) => t.update(i, (t[i].0, t[i].1.push(name))),
        None => t.push((hook, seq![name])),
    }
}

/// The hook table with plugin `name` added to each hook of `hooks`.
pub open spec fn add_hooks(
    t: Seq<(Seq<char>, Seq<Seq<char>>)>,
    hooks: Seq<Seq<char>>,
    name: Seq<char>,
) -> Seq<(Seq<char>, Seq<Seq<char>>)>
    decreases hooks.len(),
{
    if hooks.len() == 0 {
        t
    } else {
        add_hook(add_hooks(t, hooks.drop_last(), name), hooks.last(), name)
    }
}

/// Holds the plugins and the hooks they registered for.
pub struct PluginManager {
    plugins: Vec<Box<dyn Plugin>>,
    plugin_dir: String,
    hooks: Vec<(String, Vec<String>)>,
}

impl PluginManager {
    /// Number of plugins held.
    pub closed spec fn count(&self) -> nat {
        self.plugins@.len()
    }

    /// The hook table.
    pub closed spec fn hook_table(&self) -> Seq<(Seq<char>, Seq<Seq<char>>)> {
        hook_view(self.hooks@)
    }

    /// The plugins held, in registration order.
    pub closed spec fn held(&self) -> Seq<Box<dyn Plugin>> {
        self.plugins@
    }

    /// The directory plugins are loaded from.
    pub closed spec fn dir(&self) -> Seq<char> {
        self.plugin_dir@
    }

    /// A manager of the plugins in `plugin_dir`, holding none yet.
    pub fn with_dir(plugin_dir: String) -> (r: Self)
        ensures
            r.count() == 0,
            r.hook_table().len() == 0,
            r.dir() == plugin_dir@,
    {
        PluginManager { plugins: Vec::new(), plugin_dir, hooks: Vec::new() }
    }

    /// The directory plugins are loaded from.
    pub fn plugin_dir(&self) -> (r: &str)
        ensures
            r@ == self.dir(),
    {
        self.plugin_dir.as_str()
    }

    /// The index of the hook table entry for `hook`.
    fn find_hook(&self, hook: &str) -> (r: Option<usize>)
        ensures
            match hook_index(self.hook_table(), hook@) {
                Some(i) => r == Some(i as usize),
                None => r is None,
            },
    {
        let ghost t = self.hook_table();
        let mut i = self.hooks.len();
        proof {
            assert(t.subrange(0, i as int) =~= t);
        }
        while i > 0
            invariant
                t == self.hook_table(),
                i <= self.hooks@.len(),
                hook_index(t, hook@) == hook_index(t.subrange(0, i as int), hook@),
            decreases i,
        {
            proof {
                assert(t.subrange(0, i as int).drop_last() =~= t.subrange(0, i - 1));
            }
            if str_eq(self.hooks[i - 1].0.as_str(), hook) {
                return Some(i - 1);
            }
            i = i - 1;
        }
        None
    }

    /// Registers plugin `name` for each hook of `metadata`.
    pub fn register_hooks(&mut self, metadata: &PluginMetadata)
        ensures
            final(self).hook_table() == add_hooks(
                old(self).hook_table(),
                hook_names(*metadata),
                metadata.name@,
            ),
            final(self).count() == old(self).count(),
            final(self).held() == old(self).held(),
            final(self).dir() == old(self).dir(),
    {
        let ghost hooks = hook_names(*metadata);
        let ghost start = self.hook_table();
        let mut k: usize = 0;
        while k < metadata.hooks.len()
            invariant
                k <= metadata.hooks@.len(),
                hooks == hook_names(*metadata),
                self.hook_table() == add_hooks(start, hooks.subrange(0, k as int), metadata.name@),
                self.count() == old(self).count(),
                self.held() == old(self).held(),
                self.dir() == old(self).dir(),
            decreases metadata.hooks.len() - k,
        {
            let hook = metadata.hooks[k].as_str();
            let ghost before = self.hook_table();
            proof {
                assert(hooks.subrange(0, k + 1).drop_last() =~= hooks.subrange(0, k as int));
                assert(hooks.subrange(0, k + 1).last() == hook@);
            }
            proof {
                lemma_hook_index_range(before, hook@);
            }
            let hl = self.hooks.len();
            assert(before.len() == hl);
            match self.find_hook(hook) {
                Some(i) => {
                    let ghost old_hooks = self.hooks@;
                    let mut entry = self.hooks.remove(i);
                    let ghost old_entry = entry;
                    entry.1.push(metadata.name.clone());
                    proof {
                        assert(names_view(entry.1@) =~= names_view(old_entry.1@).push(
                            metadata.name@,
                        ));
                    }
                    self.hooks.insert(i, entry);
                    proof {
                        assert(hook_index(before, hook@) == Some(i as int));
                        assert(self.hooks@ =~= old_hooks.update(i as int, entry));
                        assert(before[i as int] == (old_entry.0@, names_view(old_entry.1@)));
                        assert(self.hook_table() =~= before.update(
                            i as int,
                            (before[i as int].0, before[i as int].1.push(metadata.name@)),
                        ));
                        assert(self.hook_table() =~= add_hook(before, hook@, metadata.name@));
                    }
                },
                None => {
                    let mut names: Vec<String> = Vec::new();
                    names.push(metadata.name.clone());
                    proof {
                        assert(names_view(names@) =~= seq![metadata.name@]);
                        assert(hook_index(before, hook@) is None);
                    }
                    let ghost old_hooks = self.hooks@;
                    self.hooks.push((owned(hook), names));
                    proof {
                        assert(self.hook_table() =~= before.push((hook@, seq![metadata.name@])));
                        assert(self.hook_table() =~= add_hook(before, hook@, metadata.name@));
                    }
                },
            }
            k = k + 1;
        }
        proof {
            assert(hooks.subrange(0, k as int) =~= hooks);
        }
    }

    /// Registers a plugin: it is held after the others, and registered
    /// under its name for the hooks its metadata names.
    pub fn register_plugin(&mut self, plugin: Box<dyn Plugin>) -> (r: Result<(), DiskRipperError>)
        ensures
            r is Ok,
            final(self).hook_table() == add_hooks(
                old(self).hook_table(),
                hook_names(plugin.described()),
                plugin.described().name@,
            ),
            final(self).held() == old(self).held().push(plugin),
            final(self).dir() == old(self).dir(),
    {
        let metadata = plugin.metadata();
        self.register_hooks(&metadata);
        self.plugins.push(plugin);
        Ok(())
    }

    /// The plugins held.
    pub fn plugins(&self) -> (r: &[Box<dyn Plugin>])
        ensures
            r@ == self.held(),
    {
        self.plugins.as_slice()
    }

    /// Runs hook `hook`. Plugins are told of nothing yet: the hook only
    /// succeeds.
    pub fn trigger_hook(&self, _hook: &str, _data: &str) -> (r: Result<(), DiskRipperError>)
        ensures
            r is Ok,
    {
        Ok(())
    }

    /// Shuts every plugin down once, in registration order; the plugins
    /// stay held in that order, each still saying and able to do what it
    /// did.
    pub fn shutdown_all(&mut self)
        ensures
            final(self).hook_table() == old(self).hook_table(),
            final(self).dir() == old(self).dir(),
            final(self).held().len() == old(self).held().len(),
            forall|i: int|
                0 <= i < old(self).held().len() ==> {
                    &&& (#[trigger] final(self).held()[i]).shutdowns() == old(self).held()[i].shutdowns()
                        + 1
                    &&& final(self).held()[i].described() == old(self).held()[i].described()
                    &&& final(self).held()[i].capability_list() == old(
                        self,
                    ).held()[i].capability_list()
                },
    {
        shutdown_each(&mut self.plugins);
    }
}

/// References to the items at `idx`, in that order.
fn refs_at<'a, T: ?Sized>(items: &'a Vec<Box<T>>, idx: &Vec<usize>) -> (r: Vec<&'a T>)
    requires
        forall|k: int| 0 <= k < idx@.len() ==> #[trigger] idx@[k] < items@.len(),
    ensures
        r@.len() == idx@.len(),
        forall|k: int| 0 <= k < idx@.len() ==> #[trigger] r@[k] == &*items@[idx@[k] as int],
{
    let mut out: Vec<&'a T> = Vec::new();
    let mut k: usize = 0;
    while k < idx.len()
        invariant
            k <= idx@.len(),
            forall|m: int| 0 <= m < idx@.len() ==> #[trigger] idx@[m] < items@.len(),
            out@.len() == k,
            forall|m: int| 0 <= m < k ==> #[trigger] out@[m] == &*items@[idx@[m] as int],
        decreases idx.len() - k,
    {
        let j = idx[k];
        out.push(&*items[j]);
        k = k + 1;
    }
    out
}

/// Shuts each item down once, in order, keeping them all.
fn shutdown_each<T: Plugin + ?Sized>(items: &mut Vec<Box<T>>)
    ensures
        final(items)@.len() == old(items)@.len(),
        forall|i: int| 0 <= i < old(items)@.len() ==> {
            &&& (#[trigger] final(items)@[i]).shutdowns() == old(items)@[i].shutdowns() + 1
            &&& final(items)@[i].described() == old(items)@[i].described()
            &&& final(items)@[i].capability_list() == old(items)@[i].capability_list()
        },
{
    let n = items.len();
    let mut i: usize = 0;
    while i < n
        invariant
            i <= n,
            n == old(items)@.len(),
            items@.len() == n,
            forall|m: int| 0 <= m < i ==> {
                &&& (#[trigger] items@[m]).shutdowns() == old(items)@[m].shutdowns() + 1
                &&& items@[m].described() == old(items)@[m].described()
                &&& items@[m].capability_list() == old(items)@[m].capability_list()
            },
            forall|m: int| i <= m < n ==> #[trigger] items@[m] == old(items)@[m],
        decreases n - i,
    {
        items[i].shutdown();
        i = i + 1;
    }
}

/// Indices of the plugins whose capability lists hold `capability`.
pub open spec fn with_capability(caps: Seq<Seq<PluginCapability>>, capability: PluginCapability, n: int) -> Seq<
    int,
>
    decreases n,
{
    if n <= 0 {
        seq![]
    } else if caps[n - 1].contains(capability) {
        with_capability(caps, capability, n - 1).push(n - 1)
    } else {
        with_capability(caps, capability, n - 1)
    }
}

/// The indices chosen among the first `n` lie below `n`.
proof fn lemma_with_capability_range(caps: Seq<Seq<PluginCapability>>, capability: PluginCapability, n: int)
    ensures
        forall|k: int|
            0 <= k < with_capability(caps, capability, n).len() ==> 0 <= #[trigger] with_capability(
                caps,
                capability,
                n,
            )[k] < n,
    decreases n,
{
    if n > 0 {
        lemma_with_capability_range(caps, capability, n - 1);
        let prev = with_capability(caps, capability, n - 1);
        if caps[n - 1].contains(capability) {
            assert forall|k: int| 0 <= k < prev.push(n - 1).len() implies 0 <= #[trigger] prev.push(
                n - 1,
            )[k] < n by {
                if k < prev.len() {
                    assert(prev.push(n - 1)[k] == prev[k]);
                }
            }
        }
    }
}

/// Choosing by capability keeps registration order and adds nothing: the
/// chosen indices rise strictly, and an index below `n` is chosen exactly
/// when its capability list holds the capability.
pub proof fn law_capability_selection(caps: Seq<Seq<PluginCapability>>, capability: PluginCapability, n: int)
    requires
        0 <= n <= caps.len(),
    ensures
        forall|a: int, b: int|
            0 <= a < b < with_capability(caps, capability, n).len() ==> #[trigger] with_capability(
                caps,
                capability,
                n,
            )[a] < #[trigger] with_capability(caps, capability, n)[b],
        forall|i: int|
            0 <= i < n ==> (caps[i].contains(capability) <==> #[trigger] with_capability(
                caps,
                capability,
                n,
            ).contains(i)),
    decreases n,
{
    lemma_with_capability_range(caps, capability, n);
    if n > 0 {
        law_capability_selection(caps, capability, n - 1);
        lemma_with_capability_range(caps, capability, n - 1);
        let prev = with_capability(caps, capability, n - 1);
        let cur = with_capability(caps, capability, n);
        if caps[n - 1].contains(capability) {
            assert(cur == prev.push(n - 1));
            assert forall|a: int, b: int| 0 <= a < b < cur.len() implies #[trigger] cur[a] < #[trigger] cur[b] by {
                if b < prev.len() {
                    assert(cur[a] == prev[a]);
                    assert(cur[b] == prev[b]);
                } else {
                    assert(cur[a] == prev[a]);
                }
            }
            assert forall|i: int| 0 <= i < n implies (caps[i].contains(capability) <==> #[trigger] cur.contains(i)) by {
                if i < n - 1 {
                    if prev.contains(i) {
                        let k = choose|k: int| 0 <= k < prev.len() && prev[k] == i;
                        assert(cur[k] == i);
                    }
                    if cur.contains(i) {
                        let k = choose|k: int| 0 <= k < cur.len() && cur[k] == i;
                        assert(k < prev.len());
                        assert(prev[k] == i);
                    }
                } else {
                    assert(cur[prev.len() as int] == i);
                }
            }
        } else {
            assert(cur == prev);
            assert forall|i: int| 0 <= i < n implies (caps[i].contains(capability) <==> #[trigger] cur.contains(i)) by {
                if i == n - 1 && cur.contains(i) {
                    let k = choose|k: int| 0 <= k < cur.len() && cur[k] == i;
                }
            }
        }
    }
}

/// What each held plugin can do.
pub open spec fn capability_lists(ps: Seq<Box<dyn Plugin>>) -> Seq<Seq<PluginCapability>> {
    ps.map_values(|p: Box<dyn Plugin>| p.capability_list())
}

/// Views of capability lists.
pub open spec fn cap_views(v: Seq<Vec<PluginCapability>>) -> Seq<Seq<PluginCapability>> {
    v.map_values(|c: Vec<PluginCapability>| c@)
}

/// Indices of the capability lists that hold `capability`, in order.
pub fn indices_with_capability(caps: &Vec<Vec<PluginCapability>>, capability: PluginCapability) -> (r:
    Vec<usize>)
    ensures
        r@.map_values(|i: usize| i as int) == with_capability(
            cap_views(caps@),
            capability,
            caps@.len() as int,
        ),
{
    let ghost cv = cap_views(caps@);
    let mut out: Vec<usize> = Vec::new();
    let mut i: usize = 0;
    while i < caps.len()
        invariant
            i <= caps@.len(),
            cv == cap_views(caps@),
            out@.map_values(|i: usize| i as int) == with_capability(cv, capability, i as int),
        decreases caps.len() - i,
    {
        let list = &caps[i];
        let mut found = false;
        let mut j: usize = 0;
        while j < list.len()
            invariant
                j <= list@.len(),
                found == exists|q: int| 0 <= q < j && list@[q] == capability,
            decreases list.len() - j,
        {
            if list[j] == capability {
                found = true;
            }
            j = j + 1;
        }
        proof {
            assert(cv[i as int] == list@);
            if found {
                let q = choose|q: int| 0 <= q < j && list@[q] == capability;
                assert(list@.contains(capability));
            } else {
                assert(!list@.contains(capability));
            }
        }
        let ghost before = out@.map_values(|i: usize| i as int);
        if found {
            out.push(i);
            proof {
                assert(out@.map_values(|i: usize| i as int) =~= before.push(i as int));
            }
        }
        i = i + 1;
    }
    out
}

impl PluginManager {
    /// The plugins that can do `capability`: those held whose capability
    /// lists hold it, in the order they were registered.
    pub fn get_by_capability(&self, capability: PluginCapability) -> (r: Vec<&dyn Plugin>)
        ensures
            r@.len() == with_capability(
                capability_lists(self.held()),
                capability,
                self.held().len() as int,
            ).len(),
            forall|k: int|
                0 <= k < r@.len() ==> #[trigger] r@[k] == &*self.held()[with_capability(
                    capability_lists(self.held()),
                    capability,
                    self.held().len() as int,
                )[k]],
    {
        let mut caps: Vec<Vec<PluginCapability>> = Vec::new();
        let mut i: usize = 0;
        while i < self.plugins.len()
            invariant
                i <= self.plugins@.len(),
                caps@.len() == i,
                forall|m: int| 0 <= m < i ==> #[trigger] caps@[m]@ == self.plugins@[m].capability_list(),
            decreases self.plugins.len() - i,
        {
            let c = self.plugins[i].capabilities();
            caps.push(c);
            i = i + 1;
        }
        let idx = indices_with_capability(&caps, capability);
        let ghost cv = cap_views(caps@);
        let ghost sel = with_capability(cv, capability, cv.len() as int);
        proof {
            assert(cv =~= capability_lists(self.plugins@)) by {
                assert forall|m: int| 0 <= m < cv.len() implies #[trigger] cv[m] == capability_lists(
                    self.plugins@,
                )[m] by {
                    assert(caps@[m]@ == self.plugins@[m].capability_list());
                }
            }
            lemma_with_capability_range(cv, capability, cv.len() as int);
            assert(idx@.len() == sel.len()) by {
                assert(idx@.map_values(|i: usize| i as int).len() == idx@.len());
            }
            assert forall|k: int| 0 <= k < idx@.len() implies #[trigger] idx@[k] as int == sel[k] by {
                assert(idx@.map_values(|i: usize| i as int)[k] == idx@[k] as int);
            }
            assert forall|k: int| 0 <= k < idx@.len() implies #[trigger] idx@[k] < self.plugins@.len() by {
                assert(idx@[k] as int == sel[k]);
            }
        }
        let out = refs_at(&self.plugins, &idx);
        proof {
            assert forall|k: int| 0 <= k < out@.len() implies #[trigger] out@[k] == &*self.plugins@[sel[k]] by {
                assert(idx@[k] as int == sel[k]);
            }
        }
        out
    }
}

/// A plugin that provides metadata from an online service.
pub struct MetadataPlugin {
    metadata: PluginMetadata,
    provider_url: String,
    times_shut_down: Ghost<nat>,
}

impl MetadataPlugin {
    /// The plugin's metadata.
    pub closed spec fn meta(&self) -> PluginMetadata {
        self.metadata
    }

    /// The service's address.
    pub closed spec fn url(&self) -> Seq<char> {
        self.provider_url@
    }

    /// A metadata plugin named `name` for the service at `url`: version
    /// 1.0.0, registered for the disc-inserted and rip-complete hooks.
    pub fn new(name: &str, url: &str) -> (r: Self)
        ensures
            r.meta().name@ == name@,
            r.meta().version@ == "1.0.0"@,
            r.meta().author@ == "DiskRipper"@,
            r.meta().description@ == "Metadata provider plugin"@,
            r.meta().hooks@.map_values(|s: String| s@) == seq!["on_disc_inserted"@, "on_rip_complete"@],
            r.url() == url@,
            r.shutdowns() == 0,
    {
        let mut hooks: Vec<String> = Vec::new();
        hooks.push(owned("on_disc_inserted"));
        hooks.push(owned("on_rip_complete"));
        proof {
            assert(hooks@.map_values(|s: String| s@) =~= seq!["on_disc_inserted"@, "on_rip_complete"@]);
        }
        MetadataPlugin {
            metadata: PluginMetadata {
                name: owned(name),
                version: owned("1.0.0"),
                author: owned("DiskRipper"),
                description: owned("Metadata provider plugin"),
                hooks,
            },
            provider_url: owned(url),
            times_shut_down: Ghost(0),
        }
    }
}

/// A copy of plugin metadata.
fn copy_metadata(m: &PluginMetadata) -> (r: PluginMetadata)
    ensures
        r.name == m.name,
        r.version == m.version,
        r.author == m.author,
        r.description == m.description,
        r.hooks@ == m.hooks@,
{
    let mut hooks: Vec<String> = Vec::new();
    let mut i: usize = 0;
    while i < m.hooks.len()
        invariant
            i <= m.hooks@.len(),
            hooks@ == m.hooks@.subrange(0, i as int),
        decreases m.hooks.len() - i,
    {
        hooks.push(m.hooks[i].clone());
        proof {
            assert(hooks@ =~= m.hooks@.subrange(0, i + 1));
        }
        i = i + 1;
    }
    proof {
        assert(m.hooks@.subrange(0, i as int) =~= m.hooks@);
    }
    PluginMetadata {
        name: m.name.clone(),
        version: m.version.clone(),
        author: m.author.clone(),
        description: m.description.clone(),
        hooks,
    }
}

impl Plugin for MetadataPlugin {
    closed spec fn described(&self) -> PluginMetadata {
        self.metadata
    }

    closed spec fn capability_list(&self) -> Seq<PluginCapability> {
        seq![PluginCapability::MetadataProvider]
    }

    closed spec fn shutdowns(&self) -> nat {
        self.times_shut_down@
    }

    fn metadata(&self) -> (r: PluginMetadata)
        ensures
            r.name == self.meta().name,
            r.version == self.meta().version,
            r.author == self.meta().author,
            r.description == self.meta().description,
            r.hooks@ == self.meta().hooks@,
    {
        copy_metadata(&self.metadata)
    }

    fn capabilities(&self) -> (r: Vec<PluginCapability>)
        ensures
            r@ == seq![PluginCapability::MetadataProvider],
    {
        let mut v: Vec<PluginCapability> = Vec::new();
        v.push(PluginCapability::MetadataProvider);
        v
    }

    fn initialize(&mut self) -> (r: Result<(), DiskRipperError>)
        ensures
            r is Ok,
    {
        Ok(())
    }

    fn shutdown(&mut self) {
        self.times_shut_down = Ghost(self.times_shut_down@ + 1);
    }

    fn on_disc_inserted(&self, _disc_info: &DiscInfo) -> (r: Result<(), DiskRipperError>)
        ensures
            r is Ok,
    {
        Ok(())
    }

    fn on_rip_complete(&self, _job_info: &Job) -> (r: Result<(), DiskRipperError>)
        ensures
            r is Ok,
    {
        Ok(())
    }
}

} // verus!
