use vstd::prelude::*;
use crate::messages::{Message, PluginType, PrioritizedMessage};

verus! {

/// A plugin instance, as built by a loaded module's constructor.
///
/// Its contract is stated over four spec functions: the payloads it has
/// been handed, how often it has been loaded and unloaded, and which replies
/// it may give to a payload. A verified plugin defines them; the defaults
/// serve plugins built outside verified code, whose conformance to these
/// contracts is taken on trust.
pub trait Plugin {
    /// The payloads handed to this plugin so far, oldest first.
    open spec fn received(&self) -> Seq<PrioritizedMessage> {
        Seq::empty()
    }

    /// How many times `on_load` has run on this instance.
    open spec fn load_count(&self) -> nat {
        0
    }

    /// How many times `on_unload` has run on this instance.
    open spec fn unload_count(&self) -> nat {
        0
    }

    /// Whether `replies` is what this plugin, in its present state, answers to `message`.
    open spec fn replies_ok(&self, message: PrioritizedMessage, replies: Seq<Message>) -> bool {
        true
    }

    fn name(&self) -> &str;

    fn plugin_type(&self) -> PluginType;

    /// Id of the controller this plugin reports to, if any.
    fn controller(&self) -> Option<&str>;

    /// Handles one dispatched payload and returns the messages it sends in reply.
    fn handle_message(&mut self, message: PrioritizedMessage) -> (r: Vec<Message>)
        ensures
            final(self).received() == old(self).received().push(message),
            final(self).load_count() == old(self).load_count(),
            final(self).unload_count() == old(self).unload_count(),
            old(self).replies_ok(message, r@),
    ;

    fn on_load(&mut self)
        ensures
            final(self).load_count() == old(self).load_count() + 1,
            final(self).unload_count() == old(self).unload_count(),
            final(self).received() == old(self).received(),
    ;

    fn on_unload(&mut self)
        ensures
            final(self).unload_count() == old(self).unload_count() + 1,
            final(self).load_count() == old(self).load_count(),
            final(self).received() == old(self).received(),
    ;
}

/// `after` is `before` once it has handled `m` and answered with `replies`.
pub open spec fn handled<P: Plugin>(before: P, after: P, m: PrioritizedMessage, replies: Seq<Message>) -> bool {
    &&& after.received() == before.received().push(m)
    &&& after.load_count() == before.load_count()
    &&& after.unload_count() == before.unload_count()
    &&& before.replies_ok(m, replies)
}

/// `after` is `before` once `on_load` has run on it.
pub open spec fn loaded_from<P: Plugin>(before: P, after: P) -> bool {
    &&& after.load_count() == before.load_count() + 1
    &&& after.unload_count() == before.unload_count()
    &&& after.received() == before.received()
}

/// `after` is `before` once `on_unload` has run on it.
pub open spec fn unloaded_from<P: Plugin>(before: P, after: P) -> bool {
    &&& after.unload_count() == before.unload_count() + 1
    &&& after.load_count() == before.load_count()
    &&& after.received() == before.received()
}

/// Why a plugin module could not be loaded.
#[derive(Debug)]
pub enum LoadError {
    /// The module at this path could not be opened.
    Open(String),
    /// The module has no constructor under the expected symbol.
    MissingSymbol(String),
    /// The constructor panicked; no instance was kept.
    ConstructorPanicked(String),
}

/// A lifecycle call the registry made, with the instance as it was right
/// after the call.
pub enum LifecycleEvent<P> {
    /// `on_load` ran on the plugin of this name.
    Loaded(Seq<char>, P),
    /// `on_unload` ran on the plugin of this name, which was then released.
    Unloaded(Seq<char>, P),
}

/// What the registry holds of one plugin: its bookkeeping, the instance and
/// the module handle its code lives in.
///
/// `instance` is declared before `library`, and Rust drops the fields of a
/// struct in declaration order: whenever an entry is dropped, the instance
/// goes first and the module that holds its code only after it.
pub struct RegistryEntry<P, L> {
    name: String,
    plugin_type: PluginType,
    enabled: bool,
    path: String,
    instance: P,
    library: L,
}

/// What a caller can see of one registered plugin.
pub struct PluginInfo {
    pub name: Seq<char>,
    pub plugin_type: PluginType,
    pub enabled: bool,
    pub path: Seq<char>,
}

impl<P, L> RegistryEntry<P, L> {
    pub closed spec fn info(&self) -> PluginInfo {
        PluginInfo {
            name: self.name@,
            plugin_type: self.plugin_type,
            enabled: self.enabled,
            path: self.path@,
        }
    }

    pub closed spec fn spec_instance(&self) -> P {
        self.instance
    }
}

/// Takes ownership of a value and drops it here.
fn release<T>(value: T) {
}

/// Owns the loaded plugins, keyed by name, together with the module handles
/// their code lives in.
pub struct PluginRegistry<P, L> {
    entries: Vec<RegistryEntry<P, L>>,
    history: Ghost<Seq<LifecycleEvent<P>>>,
}

/// Index of the plugin named `name` in `infos`, if any.
pub open spec fn index_of(infos: Seq<PluginInfo>, name: Seq<char>) -> int {
    choose|i: int| 0 <= i < infos.len() && infos[i].name == name
}

pub open spec fn has_name(infos: Seq<PluginInfo>, name: Seq<char>) -> bool {
    exists|i: int| 0 <= i < infos.len() && (#[trigger] infos[i]).name == name
}

/// Names are unique in the registry.
pub open spec fn names_unique(infos: Seq<PluginInfo>) -> bool {
    forall|i: int, j: int|
        0 <= i < infos.len() && 0 <= j < infos.len() && i != j ==> (#[trigger] infos[i]).name
            != (#[trigger] infos[j]).name
}

/// Whether `infos` holds an enabled plugin of type `t`.
pub open spec fn serves(infos: Seq<PluginInfo>, t: PluginType) -> bool {
    exists|i: int| 0 <= i < infos.len() && (#[trigger] infos[i]).plugin_type == t && infos[i].enabled
}

/// Whether `i` is the first enabled plugin of type `t` in `infos`.
pub open spec fn first_server(infos: Seq<PluginInfo>, t: PluginType, i: int) -> bool {
    &&& 0 <= i < infos.len()
    &&& infos[i].plugin_type == t
    &&& infos[i].enabled
    &&& forall|k: int| 0 <= k < i ==> !((#[trigger] infos[k]).plugin_type == t && infos[k].enabled)
}

/// `hist` is `before` followed by one `Unloaded` record of `name`, whose
/// instance is `inst` after `on_unload` ran on it.
pub open spec fn unload_recorded<P: Plugin>(
    before: Seq<LifecycleEvent<P>>,
    hist: Seq<LifecycleEvent<P>>,
    name: Seq<char>,
    inst: P,
) -> bool {
    &&& hist.len() == before.len() + 1
    &&& hist.drop_last() == before
    &&& (hist.last() matches LifecycleEvent::Unloaded(n, q) && n == name && unloaded_from(inst, q))
}

impl<P: Plugin, L> PluginRegistry<P, L> {
    /// What the registry holds, in order of loading.
    pub closed spec fn view(&self) -> Seq<PluginInfo> {
        self.entries@.map_values(|e: RegistryEntry<P, L>| e.info())
    }

    /// The plugin instances, in the same order as `view`.
    pub closed spec fn instances(&self) -> Seq<P> {
        self.entries@.map_values(|e: RegistryEntry<P, L>| e.spec_instance())
    }

    /// Every lifecycle call the registry has made, oldest first.
    pub closed spec fn history(&self) -> Seq<LifecycleEvent<P>> {
        self.history@
    }

    pub open spec fn wf(&self) -> bool {
        &&& names_unique(self@)
        &&& self.instances().len() == self@.len()
    }

    pub fn new() -> (r: Self)
        ensures
            r.wf(),
            r@ == Seq::<PluginInfo>::empty(),
            r.history() == Seq::<LifecycleEvent<P>>::empty(),
    {
        let r = PluginRegistry { entries: Vec::new(), history: Ghost(Seq::empty()) };
        proof {
            assert(r@ =~= Seq::<PluginInfo>::empty());
        }
        r
    }

    pub fn len(&self) -> (r: usize)
        ensures
            r == self@.len(),
    {
        self.entries.len()
    }

    /// Position of the plugin named `name`.
    pub fn position(&self, name: &str) -> (r: Option<usize>)
        requires
            self.wf(),
        ensures
            r is None <==> !has_name(self@, name@),
            r matches Some(i) ==> i < self@.len() && self@[i as int].name == name@,
    {
        let wanted = name.to_owned();
        let mut i: usize = 0;
        while i < self.entries.len()
            invariant
                i <= self.entries@.len(),
                wanted@ == name@,
                forall|k: int| 0 <= k < i ==> (#[trigger] self@[k]).name != name@,
            decreases self.entries@.len() - i,
        {
            if self.entries[i].name == wanted {
                return Some(i);
            }
            i = i + 1;
        }
        None
    }

    pub fn is_loaded(&self, name: &str) -> (r: bool)
        requires
            self.wf(),
        ensures
            r == has_name(self@, name@),
    {
        self.position(name).is_some()
    }

    /// Calls `on_unload` on the entry at `i` and drops the entry, which drops
    /// its instance before its module.
    fn unload_at(&mut self, i: usize)
        requires
            i < old(self)@.len(),
            old(self).wf(),
        ensures
            final(self).wf(),
            final(self)@ == old(self)@.remove(i as int),
            final(self).instances() == old(self).instances().remove(i as int),
            unload_recorded(old(self).history(), final(self).history(), old(self)@[i as int].name, old(self).instances()[i as int]),
    {
        let ghost infos = self@;
        let ghost insts = self.instances();
        let mut entry = self.entries.remove(i);
        entry.instance.on_unload();
        let ghost after = entry.instance;
        release(entry);
        proof {
            assert(self@ =~= infos.remove(i as int));
            assert(self.instances() =~= insts.remove(i as int));
            let n = infos[i as int].name;
            let old_hist = self.history@;
            self.history@ = self.history@.push(LifecycleEvent::Unloaded(n, after));
            assert(self.history@.drop_last() =~= old_hist);
            assert forall|a: int, b: int|
                0 <= a < self@.len() && 0 <= b < self@.len() && a != b implies (#[trigger] self@[a]).name
                != (#[trigger] self@[b]).name by {
                let a0 = if a < i { a } else { a + 1 };
                let b0 = if b < i { b } else { b + 1 };
                assert(self@[a] == infos[a0]);
                assert(self@[b] == infos[b0]);
            }
        }
    }

    /// Takes a freshly constructed plugin and the module handle it came from:
    /// reads its name and type, calls `on_load` once and keeps it, enabled,
    /// under its name; returns the name and type read. A plugin already loaded
    /// under that name is unloaded first, as if it were reloaded.
    pub fn install(&mut self, instance: P, library: L, path: String) -> (r: (String, PluginType))
        requires
            old(self).wf(),
        ensures
            final(self).wf(),
            final(self)@ == without(old(self)@, r.0@).push(
                PluginInfo { name: r.0@, plugin_type: r.1, enabled: true, path: path@ },
            ),
            loaded_from(instance, final(self).instances().last()),
            final(self).history().last() == LifecycleEvent::Loaded(r.0@, final(self).instances().last()),
            has_name(old(self)@, r.0@) ==> {
                let k = index_of(old(self)@, r.0@);
                &&& final(self).instances().drop_last() == old(self).instances().remove(k)
                &&& unload_recorded(old(self).history(), final(self).history().drop_last(), r.0@, old(self).instances()[k])
            },
            !has_name(old(self)@, r.0@) ==> {
                &&& final(self).instances().drop_last() == old(self).instances()
                &&& final(self).history().drop_last() == old(self).history()
            },
    {
        let mut instance = instance;
        let name = instance.name().to_owned();
        let plugin_type = instance.plugin_type();
        let ghost before = self@;
        let ghost before_insts = self.instances();
        let ghost before_hist = self.history();
        match self.position(name.as_str()) {
            Some(i) => {
                self.unload_at(i);
                proof {
                    lemma_without_at(before, name@, i as int);
                    let k = index_of(before, name@);
                    assert(before[k].name == name@);
                    assert(k == i);
                }
            },
            None => {
                proof {
                    assert(without(before, name@) =~= before);
                }
            },
        }
        instance.on_load();
        let ghost mid = self@;
        let ghost mid_insts = self.instances();
        let ghost mid_hist = self.history();
        let ghost loaded = instance;
        let out_name = name.clone();
        self.entries.push(RegistryEntry { name, plugin_type, enabled: true, path, instance, library });
        proof {
            self.history@ = self.history@.push(LifecycleEvent::Loaded(out_name@, loaded));
            assert(self.history@.drop_last() =~= mid_hist);
            assert(self@ =~= mid.push(PluginInfo { name: out_name@, plugin_type, enabled: true, path: path@ }));
            assert(self.instances() =~= mid_insts.push(loaded));
            assert(self.instances().drop_last() =~= mid_insts);
            assert(!has_name(mid, out_name@));
            assert forall|a: int, b: int|
                0 <= a < self@.len() && 0 <= b < self@.len() && a != b implies (#[trigger] self@[a]).name
                != (#[trigger] self@[b]).name by {
                if a < mid.len() && b < mid.len() {
                    assert(self@[a] == mid[a]);
                    assert(self@[b] == mid[b]);
                } else if a < mid.len() {
                    assert(self@[a] == mid[a]);
                } else {
                    assert(self@[b] == mid[b]);
                }
            }
        }
        (out_name, plugin_type)
    }

    /// Unloads the plugin named `name`: calls its `on_unload` once and drops
    /// its entry, instance before module. Returns whether such a plugin was
    /// loaded; when none was, nothing changes.
    pub fn unload(&mut self, name: &str) -> (r: bool)
        requires
            old(self).wf(),
        ensures
            final(self).wf(),
            r == has_name(old(self)@, name@),
            final(self)@ == without(old(self)@, name@),
            !has_name(final(self)@, name@),
            r ==> {
                let k = index_of(old(self)@, name@);
                &&& final(self).instances() == old(self).instances().remove(k)
                &&& unload_recorded(old(self).history(), final(self).history(), name@, old(self).instances()[k])
            },
            !r ==> final(self).instances() == old(self).instances() && final(self).history() == old(self).history(),
    {
        let ghost before = self@;
        match self.position(name) {
            Some(i) => {
                self.unload_at(i);
                proof {
                    lemma_without_at(before, name@, i as int);
                    let k = index_of(before, name@);
                    assert(before[k].name == name@);
                    assert(k == i);
                }
                true
            },
            None => false,
        }
    }

    /// Enables or disables the plugin named `name`. A disabled plugin stays
    /// loaded but is never dispatched to. Returns whether it was found.
    pub fn set_enabled(&mut self, name: &str, enabled: bool) -> (r: bool)
        requires
            old(self).wf(),
        ensures
            final(self).wf(),
            r == has_name(old(self)@, name@),
            final(self).history() == old(self).history(),
            final(self).instances() == old(self).instances(),
            final(self)@.len() == old(self)@.len(),
            forall|k: int|
                0 <= k < old(self)@.len() ==> #[trigger] final(self)@[k] == (if old(self)@[k].name == name@ {
                    PluginInfo { enabled, ..old(self)@[k] }
                } else {
                    old(self)@[k]
                }),
    {
        let ghost before = self@;
        let ghost insts = self.instances();
        match self.position(name) {
            Some(i) => {
                self.entries[i].enabled = enabled;
                proof {
                    assert(self.instances() =~= insts);
                    assert forall|k: int| 0 <= k < before.len() implies #[trigger] self@[k] == (if before[k].name
                        == name@ {
                        PluginInfo { enabled, ..before[k] }
                    } else {
                        before[k]
                    }) by {
                        if k != i {
                            assert(before[k].name != before[i as int].name);
                        }
                    }
                }
                true
            },
            None => false,
        }
    }

    /// Position of the first enabled plugin of type `t`, the one that payloads
    /// for `t` are dispatched to.
    pub fn handler_for(&self, t: PluginType) -> (r: Option<usize>)
        ensures
            r is None <==> !serves(self@, t),
            r matches Some(i) ==> first_server(self@, t, i as int),
    {
        let mut i: usize = 0;
        while i < self.entries.len()
            invariant
                i <= self.entries@.len(),
                forall|k: int|
                    0 <= k < i ==> !((#[trigger] self@[k]).plugin_type == t && self@[k].enabled),
            decreases self.entries@.len() - i,
        {
            if self.entries[i].plugin_type == t && self.entries[i].enabled {
                proof {
                    assert(self@[i as int].plugin_type == t && self@[i as int].enabled);
                }
                return Some(i);
            }
            i = i + 1;
        }
        None
    }

    /// Hands `message` to the plugin at position `i` and returns its replies.
    pub fn deliver(&mut self, i: usize, message: PrioritizedMessage) -> (r: Vec<Message>)
        requires
            old(self).wf(),
            i < old(self)@.len(),
        ensures
            final(self).wf(),
            final(self)@ == old(self)@,
            final(self).history() == old(self).history(),
            final(self).instances().len() == old(self).instances().len(),
            handled(old(self).instances()[i as int], final(self).instances()[i as int], message, r@),
            forall|k: int|
                0 <= k < old(self).instances().len() && k != i ==> #[trigger] final(self).instances()[k]
                    == old(self).instances()[k],
    {
        let ghost before = self@;
        let ghost insts = self.instances();
        let replies = self.entries[i].instance.handle_message(message);
        proof {
            assert(self@ =~= before);
            assert forall|k: int| 0 <= k < insts.len() && k != i implies #[trigger] self.instances()[k] == insts[k] by {}
        }
        replies
    }

    /// The module path the plugin named `name` was loaded from.
    pub fn path_of(&self, name: &str) -> (r: Option<String>)
        requires
            self.wf(),
        ensures
            r is None <==> !has_name(self@, name@),
            r matches Some(p) ==> p@ == self@[index_of(self@, name@)].path,
    {
        match self.position(name) {
            Some(i) => {
                proof {
                    let k = index_of(self@, name@);
                    assert(self@[k].name == name@);
                }
                Some(self.entries[i].path.clone())
            },
            None => None,
        }
    }

    /// Name of the plugin at position `i`.
    pub fn name_at(&self, i: usize) -> (r: &str)
        requires
            i < self@.len(),
        ensures
            r@ == self@[i as int].name,
    {
        self.entries[i].name.as_str()
    }
}

/// `infos` without the plugin named `name`.
pub open spec fn without(infos: Seq<PluginInfo>, name: Seq<char>) -> Seq<PluginInfo> {
    if has_name(infos, name) {
        infos.remove(index_of(infos, name))
    } else {
        infos
    }
}

proof fn lemma_without_at(infos: Seq<PluginInfo>, name: Seq<char>, i: int)
    requires
        names_unique(infos),
        0 <= i < infos.len(),
        infos[i].name == name,
    ensures
        without(infos, name) == infos.remove(i),
        !has_name(infos.remove(i), name),
{
    let rest = infos.remove(i);
    if has_name(rest, name) {
        let j = choose|j: int| 0 <= j < rest.len() && (#[trigger] rest[j]).name == name;
        let j0 = if j < i { j } else { j + 1 };
        assert(rest[j] == infos[j0]);
    }
    assert(has_name(infos, name));
    let k = index_of(infos, name);
    assert(infos[k].name == name);
}

/// Loading a plugin under `name` leaves exactly one plugin of that name,
/// on which `on_load` has run once; unloading it afterwards runs its
/// `on_unload` once and leaves no plugin of that name, with every other
/// plugin as it was.
pub proof fn lemma_load_unload_lifecycle<P: Plugin>(
    infos: Seq<PluginInfo>,
    name: Seq<char>,
    plugin_type: PluginType,
    path: Seq<char>,
    fresh: P,
    loaded: P,
    unloaded: P,
)
    requires
        names_unique(infos),
        fresh.load_count() == 0,
        fresh.unload_count() == 0,
        loaded_from(fresh, loaded),
        unloaded_from(loaded, unloaded),
    ensures
        loaded.load_count() == 1 && loaded.unload_count() == 0,
        unloaded.load_count() == 1 && unloaded.unload_count() == 1,
        unloaded.received() == fresh.received(),
        ({
            let after_load = without(infos, name).push(
                PluginInfo { name, plugin_type, enabled: true, path },
            );
            &&& names_unique(after_load)
            &&& has_name(after_load, name)
            &&& index_of(after_load, name) == after_load.len() - 1
            &&& without(after_load, name) == without(infos, name)
            &&& !has_name(without(after_load, name), name)
        }),
{
    let rest = without(infos, name);
    let e = PluginInfo { name, plugin_type, enabled: true, path };
    let loaded_infos = rest.push(e);
    if has_name(infos, name) {
        let k = index_of(infos, name);
        lemma_without_at(infos, name, k);
    }
    assert(!has_name(rest, name));
    assert(names_unique(rest)) by {
        if has_name(infos, name) {
            let k = index_of(infos, name);
            assert forall|a: int, b: int|
                0 <= a < rest.len() && 0 <= b < rest.len() && a != b implies (#[trigger] rest[a]).name
                != (#[trigger] rest[b]).name by {
                let a0 = if a < k { a } else { a + 1 };
                let b0 = if b < k { b } else { b + 1 };
                assert(rest[a] == infos[a0]);
                assert(rest[b] == infos[b0]);
            }
        }
    }
    assert forall|a: int, b: int|
        0 <= a < loaded_infos.len() && 0 <= b < loaded_infos.len() && a != b implies (#[trigger] loaded_infos[a]).name
        != (#[trigger] loaded_infos[b]).name by {
        if a < rest.len() && b < rest.len() {
            assert(loaded_infos[a] == rest[a]);
            assert(loaded_infos[b] == rest[b]);
        } else if a < rest.len() {
            assert(loaded_infos[a] == rest[a]);
        } else {
            assert(loaded_infos[b] == rest[b]);
        }
    }
    assert(loaded_infos[rest.len() as int].name == name);
    lemma_without_at(loaded_infos, name, rest.len() as int);
    let k = index_of(loaded_infos, name);
    assert(loaded_infos[k].name == name);
    assert(loaded_infos.remove(rest.len() as int) =~= rest);
}

} // verus!
