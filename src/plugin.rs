use vstd::prelude::*;
use crate::config::{CfCallbackInfo, ConfigStore, resolved, resolved_in_context};
use crate::ownership::{OwnedString, ReleaseError, StringLedger};
use crate::tree::{Handler, ModuleTree, NodeState, TreeError, valid_name, is_valid_name};

verus! {

/// What the host offers a plugin: its global configuration, the ledger of
/// strings crossing the boundary, and the arena of module trees.
pub struct Host {
    pub config: ConfigStore,
    pub strings: StringLedger,
    pub modules: ModuleTree,
}

/// The configuration key `plugin.<plugin>.<option>`.
pub open spec fn option_path(plugin: Seq<char>, option: Seq<char>) -> Seq<char> {
    "plugin."@ + plugin + "."@ + option
}

/// Builds `option_path`.
pub fn make_option_path(plugin: &str, option: &str) -> (r: String)
    ensures
        r@ == option_path(plugin@, option@),
{
    let mut s = String::from_str("plugin.");
    s.append(plugin);
    s.append(".");
    s.append(option);
    s
}

impl Host {
    pub open spec fn wf(&self) -> bool {
        self.modules.wf()
    }

    pub fn new(config: ConfigStore) -> (r: Host)
        ensures
            r.wf(),
            r.config == config,
            r.strings.released@.len() == 0,
            r.modules.len() == 0,
            r.modules.registered@.len() == 0,
    {
        Host { config, strings: StringLedger::new(), modules: ModuleTree::new() }
    }

    /// The value at `path` in the global store, or `fallback`, handed over
    /// as a newly owned string.
    pub fn resolve_config(&mut self, path: &str, fallback: &str) -> (r: OwnedString)
        requires
            old(self).strings.released@.len() < u64::MAX,
        ensures
            r.text@ == resolved(old(self).config.entries@, path@, fallback@),
            final(self).config == old(self).config,
            final(self).modules == old(self).modules,
            final(self).strings.released@ == old(self).strings.released@.push(false),
            r.id as nat == old(self).strings.released@.len(),
            final(self).strings.outstanding() == old(self).strings.outstanding().insert(r.id as nat),
    {
        let v = self.config.resolve_config(path, fallback);
        self.strings.allocate(v)
    }

    /// Resolves `path` for one invocation (argument, then global store, then
    /// `fallback`), handed over as a newly owned string.
    pub fn resolve_config_from_callback(&mut self, info: &CfCallbackInfo, path: &str, fallback: &str) -> (r:
        OwnedString)
        requires
            old(self).strings.released@.len() < u64::MAX,
        ensures
            r.text@ == resolved_in_context(info.module_args@, old(self).config.entries@, path@, fallback@),
            final(self).config == old(self).config,
            final(self).modules == old(self).modules,
            final(self).strings.released@ == old(self).strings.released@.push(false),
            r.id as nat == old(self).strings.released@.len(),
            final(self).strings.outstanding() == old(self).strings.outstanding().insert(r.id as nat),
    {
        let v = info.resolve_config_from_callback(&self.config, path, fallback);
        self.strings.allocate(v)
    }

    /// Gives back a string that the host handed over.
    pub fn release_owned_string(&mut self, s: &OwnedString) -> (r: Result<(), ReleaseError>)
        ensures
            r == (if !old(self).strings.issued(s.id as nat) {
                Err::<(), ReleaseError>(ReleaseError::Unknown)
            } else if !old(self).strings.outstanding().contains(s.id as nat) {
                Err::<(), ReleaseError>(ReleaseError::DoubleRelease)
            } else {
                Ok::<(), ReleaseError>(())
            }),
            final(self).config == old(self).config,
            final(self).modules == old(self).modules,
            r is Ok ==> final(self).strings.outstanding() == old(self).strings.outstanding().remove(
                s.id as nat,
            ),
            r is Ok ==> final(self).strings.released@ == old(self).strings.released@.update(
                s.id as int,
                true,
            ),
            r is Err ==> final(self).strings == old(self).strings,
    {
        self.strings.release(s)
    }
}

/// The name provider's answer: the cached username (or `unknown`) followed
/// by the format in parentheses.
pub open spec fn name_text(username: Option<Seq<char>>, format: Seq<char>) -> Seq<char> {
    (match username {
        Some(u) => u,
        None => "unknown"@,
    }) + " ("@ + format + ")"@
}

/// The format that the name provider uses for one invocation.
pub open spec fn name_format(plugin: Seq<char>, info: CfCallbackInfo, cfg: ConfigStore) -> Seq<char> {
    resolved_in_context(info.module_args@, cfg.entries@, option_path(plugin, "format"@), "default"@)
}

/// What a handler answers for one invocation.
pub open spec fn handler_text(
    h: Handler,
    plugin: Seq<char>,
    username: Option<Seq<char>>,
    info: CfCallbackInfo,
    cfg: ConfigStore,
) -> Seq<char> {
    match h {
        Handler::UserName => name_text(username, name_format(plugin, info, cfg)),
        Handler::Language => "Rust"@,
        Handler::Status => "Learning customfetch plugins"@,
    }
}

/// The plugin's own record, alive from `start` to `finish`: its name, the
/// username read at load time, and the tree it built.
pub struct PluginState {
    pub name: String,
    pub username: Option<String>,
    pub root: Option<usize>,
    pub registered: bool,
    pub active: bool,
}

impl PluginState {
    pub open spec fn username_view(&self) -> Option<Seq<char>> {
        match self.username {
            Some(u) => Some(u@),
            None => None,
        }
    }

    /// An unloaded plugin called `name`.
    pub fn new(name: &str) -> (r: PluginState)
        ensures
            r.name@ == name@,
            r.username is None,
            r.root is None,
            !r.registered,
            !r.active,
    {
        PluginState { name: String::from_str(name), username: None, root: None, registered: false, active: false }
    }
}

/// Answers a query of the name provider, reading the format through the
/// host (the borrowed string is released before returning).
pub fn rust_user_name_handler(plugin: &PluginState, host: &mut Host, info: &CfCallbackInfo) -> (r: OwnedString)
    requires
        old(host).strings.released@.len() + 1 < u64::MAX,
    ensures
        r.text@ == name_text(plugin.username_view(), name_format(plugin.name@, *info, old(host).config)),
        final(host).config == old(host).config,
        final(host).modules == old(host).modules,
        final(host).strings.released@ == old(host).strings.released@.push(true).push(false),
        final(host).strings.outstanding() == old(host).strings.outstanding().insert(r.id as nat),
{
    let path = make_option_path(plugin.name.as_str(), "format");
    let format = host.resolve_config_from_callback(info, path.as_str(), "default");
    let mut text = match &plugin.username {
        Some(u) => u.clone(),
        None => String::from_str("unknown"),
    };
    text.append(" (");
    text.append(format.text.as_str());
    text.append(")");
    let released = host.release_owned_string(&format);
    proof {
        assert(released is Ok);
        assert(host.strings.outstanding() == old(host).strings.outstanding());
        assert(host.strings.released@ =~= old(host).strings.released@.push(true));
    }
    host.strings.allocate(text)
}

/// Answers a query of the language provider.
pub fn rust_user_language_handler(host: &mut Host) -> (r: OwnedString)
    requires
        old(host).strings.released@.len() < u64::MAX,
    ensures
        r.text@ == "Rust"@,
        final(host).config == old(host).config,
        final(host).modules == old(host).modules,
        final(host).strings.released@ == old(host).strings.released@.push(false),
        final(host).strings.outstanding() == old(host).strings.outstanding().insert(r.id as nat),
{
    host.strings.allocate(String::from_str("Rust"))
}

/// Answers a query of the status provider.
pub fn rust_user_status_handler(host: &mut Host) -> (r: OwnedString)
    requires
        old(host).strings.released@.len() < u64::MAX,
    ensures
        r.text@ == "Learning customfetch plugins"@,
        final(host).config == old(host).config,
        final(host).modules == old(host).modules,
        final(host).strings.released@ == old(host).strings.released@.push(false),
        final(host).strings.outstanding() == old(host).strings.outstanding().insert(r.id as nat),
{
    host.strings.allocate(String::from_str("Learning customfetch plugins"))
}

/// Invokes the handler of `node` for one query. `None` when the node is
/// unknown or a container; otherwise a newly owned answer.
pub fn dispatch(plugin: &PluginState, host: &mut Host, node: usize, info: &CfCallbackInfo) -> (r: Option<
    OwnedString,
>)
    requires
        old(host).strings.released@.len() + 1 < u64::MAX,
    ensures
        final(host).config == old(host).config,
        final(host).modules == old(host).modules,
        (node >= old(host).modules.len() || old(host).modules.node(node as int).handler is None)
            ==> r is None && final(host).strings == old(host).strings,
        node < old(host).modules.len() ==> (old(host).modules.node(node as int).handler matches Some(h) ==> {
            &&& r matches Some(s) && s.text@ == handler_text(
                h,
                plugin.name@,
                plugin.username_view(),
                *info,
                old(host).config,
            ) && final(host).strings.outstanding() == old(host).strings.outstanding().insert(s.id as nat)
        }),
{
    if node >= host.modules.nodes.len() {
        return None;
    }
    match host.modules.handler(node) {
        None => None,
        Some(Handler::UserName) => Some(rust_user_name_handler(plugin, host, info)),
        Some(Handler::Language) => Some(rust_user_language_handler(host)),
        Some(Handler::Status) => Some(rust_user_status_handler(host)),
    }
}

/// Why `start` left the plugin without visible modules.
#[derive(Debug, Clone, Copy, PartialEq, Eq, Structural)]
pub enum StartError {
    /// The plugin was active already.
    AlreadyActive,
    /// The plugin's name cannot name a module.
    InvalidName,
    /// Creating a node failed.
    Create(TreeError),
    /// Attaching a provider to the plugin's node failed.
    Attach(TreeError),
    /// The host refused the tree.
    Register(TreeError),
}

/// The shape of the tree that `start` builds: three providers (`name`,
/// `language`, `status`) at `base`, `base + 1`, `base + 2`, under a container
/// at `base + 3` named after the plugin.
pub open spec fn built_tree(t: ModuleTree, base: int, plugin: Seq<char>) -> bool {
    &&& t.len() == base + 4
    &&& t.node(base).name@ == "name"@
    &&& t.node(base).description@ == "Rust user name"@
    &&& t.node(base).handler == Some(Handler::UserName)
    &&& t.node(base + 1).name@ == "language"@
    &&& t.node(base + 1).description@ == "Favorite language"@
    &&& t.node(base + 1).handler == Some(Handler::Language)
    &&& t.node(base + 2).name@ == "status"@
    &&& t.node(base + 2).description@ == "Current status"@
    &&& t.node(base + 2).handler == Some(Handler::Status)
    &&& t.node(base + 3).name@ == plugin
    &&& t.node(base + 3).description@ == "Rust user information"@
    &&& t.node(base + 3).handler is None
    &&& t.node(base + 3).parent is None
    &&& t.node(base + 3).children@ == seq![base as usize, (base + 1) as usize, (base + 2) as usize]
    &&& forall|k: int| base <= k < base + 3 ==> (#[trigger] t.node(k)).parent == Some((base + 3) as usize)
}

fn create_or_fail(t: &mut ModuleTree, name: &str, description: &str, handler: Option<Handler>) -> (r: Result<usize, StartError>)
    requires
        old(t).wf(),
    ensures
        final(t).wf(),
        !valid_name(name@) ==> r == Err::<usize, StartError>(StartError::Create(TreeError::InvalidName)),
        !valid_name(name@) ==> *final(t) == *old(t),
        valid_name(name@) ==> r == Ok::<usize, StartError>(old(t).len() as usize),
        valid_name(name@) ==> {
            &&& final(t).len() == old(t).len() + 1
            &&& final(t).nodes@.drop_last() == old(t).nodes@
            &&& final(t).registered == old(t).registered
            &&& final(t).node(old(t).len() as int).name@ == name@
            &&& final(t).node(old(t).len() as int).description@ == description@
            &&& final(t).node(old(t).len() as int).handler == handler
            &&& final(t).node(old(t).len() as int).parent is None
            &&& final(t).node(old(t).len() as int).children@.len() == 0
            &&& final(t).node(old(t).len() as int).state == NodeState::Building
        },
{
    match t.create_node(name, description, handler) {
        Ok(i) => Ok(i),
        Err(e) => Err(StartError::Create(e)),
    }
}

/// Loads the plugin: reads the username (`plugin.<name>.username`, else
/// `rustacean`), builds the provider nodes and then their container,
/// attaches them in order, stopping at the first refusal, and hands the
/// tree to the host. A tree that was not handed over stays the plugin's.
#[verifier::rlimit(50)]
pub fn start(plugin: &mut PluginState, host: &mut Host) -> (r: Result<(), StartError>)
    requires
        old(host).wf(),
        old(host).strings.released@.len() < u64::MAX,
    ensures
        final(host).wf(),
        old(plugin).active ==> r == Err::<(), StartError>(StartError::AlreadyActive) && *final(plugin)
            == *old(plugin) && *final(host) == *old(host),
        !old(plugin).active ==> {
            &&& final(plugin).active
            &&& final(plugin).name == old(plugin).name
            &&& final(plugin).username_view() == Some(
                resolved(old(host).config.entries@, option_path(old(plugin).name@, "username"@), "rustacean"@),
            )
            &&& final(host).config == old(host).config
            &&& final(host).strings.outstanding() == old(host).strings.outstanding()
            &&& final(host).strings.released@ == old(host).strings.released@.push(true)
        },
        !old(plugin).active && !valid_name(old(plugin).name@) ==> {
            &&& r == Err::<(), StartError>(StartError::InvalidName)
            &&& final(plugin).root is None
            &&& !final(plugin).registered
            &&& final(host).modules == old(host).modules
        },
        !old(plugin).active && valid_name(old(plugin).name@) ==> {
            let base = old(host).modules.len() as int;
            &&& built_tree(final(host).modules, base, old(plugin).name@)
            &&& final(plugin).root == Some((base + 3) as usize)
            &&& (old(host).modules.has_root_named(old(plugin).name@) ==> {
                &&& r == Err::<(), StartError>(StartError::Register(TreeError::DuplicateRoot))
                &&& !final(plugin).registered
                &&& final(host).modules.registered == old(host).modules.registered
                &&& final(host).modules.node(base + 3).state == NodeState::Building
            })
            &&& (!old(host).modules.has_root_named(old(plugin).name@) ==> {
                &&& r is Ok
                &&& final(plugin).registered
                &&& final(host).modules.registered@ == old(host).modules.registered@.push((base + 3) as usize)
                &&& final(host).modules.node(base + 3).state == NodeState::Registered
            })
        },
{
    if plugin.active {
        return Err(StartError::AlreadyActive);
    }
    plugin.root = None;
    plugin.registered = false;
    let path = make_option_path(plugin.name.as_str(), "username");
    let u = host.resolve_config(path.as_str(), "rustacean");
    plugin.username = Some(u.text.clone());
    let released = host.release_owned_string(&u);
    proof {
        assert(released is Ok);
        assert(host.strings.released@ =~= old(host).strings.released@.push(true));
    }
    plugin.active = true;
    if !is_valid_name(plugin.name.as_str()) {
        return Err(StartError::InvalidName);
    }
    let ghost t0 = host.modules;
    let ghost base = t0.len() as int;
    proof {
        reveal_strlit("name");
        reveal_strlit("language");
        reveal_strlit("status");
    }
    let name_module = create_or_fail(&mut host.modules, "name", "Rust user name", Some(Handler::UserName))?;
    let ghost t1 = host.modules;
    let language_module = create_or_fail(&mut host.modules, "language", "Favorite language", Some(Handler::Language))?;
    let ghost t2 = host.modules;
    let status_module = create_or_fail(&mut host.modules, "status", "Current status", Some(Handler::Status))?;
    let ghost t3 = host.modules;
    let parent = create_or_fail(&mut host.modules, plugin.name.as_str(), "Rust user information", None)?;
    let ghost t4 = host.modules;
    proof {
        assert(valid_name(plugin.name@));
        assert(t2.node(base) == t1.node(base));
        assert(t3.node(base) == t1.node(base));
        assert(t4.node(base) == t1.node(base));
        assert(t3.node(base + 1) == t2.node(base + 1));
        assert(t4.node(base + 1) == t2.node(base + 1));
        assert(t4.node(base + 2) == t3.node(base + 2));
        assert(t4.node_wf(base + 3));
        assert(t4.node(base + 3).root == base + 3);
        assert(!t4.has_child_named(base + 3, "name"@));
    }
    plugin.root = Some(parent);
    if let Err(e) = host.modules.add_child(parent, name_module) {
        return Err(StartError::Attach(e));
    }
    let ghost t5 = host.modules;
    proof {
        assert(t5.node(base + 3).children@ =~= seq![base as usize]);
        assert(t5.node(base + 3).root == base + 3);
        assert(t5.node(base + 1).parent is None);
        assert(t5.node(base + 1).state == NodeState::Building);
        assert(t5.node(base + 3).state == NodeState::Building);
        assert(t5.node(base).name@ == "name"@);
        assert("name"@ != "language"@);
        assert(!t5.has_child_named(base + 3, "language"@));
    }
    if let Err(e) = host.modules.add_child(parent, language_module) {
        return Err(StartError::Attach(e));
    }
    let ghost t6 = host.modules;
    proof {
        assert(t6.node(base + 3).children@ =~= seq![base as usize, (base + 1) as usize]);
        assert(t6.node(base + 3).root == base + 3);
        assert(t6.node(base + 2).parent is None);
        assert(t6.node(base + 2).state == NodeState::Building);
        assert(t6.node(base + 3).state == NodeState::Building);
        assert(t6.node(base).name@ == "name"@);
        assert(t6.node(base + 1).name@ == "language"@);
        assert("name"@ != "status"@);
        assert("language"@ != "status"@);
        assert(!t6.has_child_named(base + 3, "status"@));
    }
    if let Err(e) = host.modules.add_child(parent, status_module) {
        return Err(StartError::Attach(e));
    }
    let ghost t7 = host.modules;
    proof {
        assert(t7.node(base + 3).children@ =~= seq![base as usize, (base + 1) as usize, (base + 2) as usize]);
        assert(t7.node(base).parent == Some((base + 3) as usize));
        assert(t7.node(base + 1).parent == Some((base + 3) as usize));
        assert(t7.node(base + 2).parent == Some((base + 3) as usize));
        assert(t7.node(base + 3).parent is None);
        assert(t7.node(base + 3).state == NodeState::Building);
        assert(t7.has_root_named(plugin.name@) == t0.has_root_named(plugin.name@)) by {
            assert forall|k: int| 0 <= k < t0.registered@.len() implies #[trigger] t7.node(t0.registered@[k] as int).name@
                == t0.node(t0.registered@[k] as int).name@ by {
                assert(t0.registered@[k] < t0.len());
                assert(t4.node(t0.registered@[k] as int) == t0.node(t0.registered@[k] as int));
            }
        }
        assert(built_tree(t7, base, plugin.name@));
    }
    match host.modules.register_tree(parent) {
        Ok(()) => {
            plugin.registered = true;
            proof {
                assert(built_tree(host.modules, base, plugin.name@));
            }
            Ok(())
        },
        Err(e) => Err(StartError::Register(e)),
    }
}

/// Unloads the plugin: forgets the username and, where the tree was never
/// handed to the host, releases it. A tree the host accepted is left alone,
/// and a second `finish` releases nothing.
pub fn finish(plugin: &mut PluginState, host: &mut Host) -> (r: Result<(), TreeError>)
    requires
        old(host).wf(),
    ensures
        final(host).wf(),
        final(plugin).username is None,
        final(plugin).root is None,
        !final(plugin).active,
        final(plugin).name == old(plugin).name,
        final(host).config == old(host).config,
        final(host).strings == old(host).strings,
        final(host).modules.registered == old(host).modules.registered,
        old(plugin).root is Some && !old(plugin).registered ==> {
            let rt = old(plugin).root->0;
            &&& (old(host).modules.release_error(rt as int) matches Some(e) ==> r == Err::<(), TreeError>(e)
                && final(host).modules == old(host).modules)
            &&& (old(host).modules.release_error(rt as int) is None ==> r is Ok
                && final(host).modules.tree_state_set(&old(host).modules, rt as int, NodeState::Released))
        },
        !(old(plugin).root is Some && !old(plugin).registered) ==> r is Ok && final(host).modules
            == old(host).modules,
{
    plugin.username = None;
    plugin.active = false;
    let r = match plugin.root {
        Some(rt) => {
            if plugin.registered {
                Ok(())
            } else {
                host.modules.release_tree(rt)
            }
        },
        None => Ok(()),
    };
    plugin.root = None;
    plugin.registered = false;
    r
}

} // verus!
