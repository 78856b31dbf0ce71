use vstd::prelude::*;

verus! {

/// One name/value pair: an argument that a caller supplies for a single
/// handler invocation, or one entry of the global configuration store.
pub struct CfModuleArgs {
    pub name: String,
    pub value: String,
}

/// The value of the first pair named `key`, in sequence order.
pub open spec fn find_first(args: Seq<CfModuleArgs>, key: Seq<char>) -> Option<Seq<char>>
    decreases args.len(),
{
    if args.len() == 0 {
        None
    } else if args[0].name@ == key {
        Some(args[0].value@)
    } else {
        find_first(args.drop_first(), key)
    }
}

/// Position of the last '.' in `path`, or -1 when there is none.
pub open spec fn last_dot(path: Seq<char>) -> int
    decreases path.len(),
{
    if path.len() == 0 {
        -1
    } else if path.last() == '.' {
        path.len() - 1
    } else {
        last_dot(path.drop_last())
    }
}

/// The key under which a per-invocation argument overrides the dotted
/// configuration path: its last segment (`plugin.demo.format` gives `format`).
pub open spec fn local_key(path: Seq<char>) -> Seq<char> {
    path.subrange(last_dot(path) + 1, path.len() as int)
}

/// The effective value of `path` in a store: its entry, else `fallback`.
pub open spec fn resolved(entries: Seq<CfModuleArgs>, path: Seq<char>, fallback: Seq<char>) -> Seq<char> {
    match find_first(entries, path) {
        Some(v) => v,
        None => fallback,
    }
}

/// The effective value of `path` for one invocation: an argument named by
/// the path's last segment, else the store's entry, else `fallback`.
pub open spec fn resolved_in_context(
    args: Seq<CfModuleArgs>,
    entries: Seq<CfModuleArgs>,
    path: Seq<char>,
    fallback: Seq<char>,
) -> Seq<char> {
    match find_first(args, local_key(path)) {
        Some(v) => v,
        None => resolved(entries, path, fallback),
    }
}

proof fn lemma_last_dot_range(path: Seq<char>)
    ensures
        -1 <= last_dot(path) < path.len(),
        last_dot(path) >= 0 ==> path[last_dot(path)] == '.',
    decreases path.len(),
{
    if path.len() > 0 && path.last() != '.' {
        lemma_last_dot_range(path.drop_last());
    }
}

/// The value of the first pair named `key`.
pub fn find_arg_by_name(args: &Vec<CfModuleArgs>, key: &String) -> (r: Option<String>)
    ensures
        r matches Some(v) ==> find_first(args@, key@) == Some(v@),
        r is None ==> find_first(args@, key@) is None,
{
    let mut i: usize = 0;
    assert(args@.subrange(0, args@.len() as int) =~= args@);
    while i < args.len()
        invariant
            i <= args@.len(),
            find_first(args@, key@) == find_first(args@.subrange(i as int, args@.len() as int), key@),
        decreases args@.len() - i,
    {
        assert(args@.subrange(i as int, args@.len() as int).drop_first()
            =~= args@.subrange(i + 1, args@.len() as int));
        if args[i].name == *key {
            return Some(args[i].value.clone());
        }
        i += 1;
    }
    None
}

/// The last dotted segment of `path`.
pub fn last_segment(path: &str) -> (r: String)
    ensures
        r@ == local_key(path@),
{
    let n = path.unicode_len();
    let mut i: usize = n;
    proof {
        assert(path@.subrange(0, n as int) =~= path@);
        lemma_last_dot_range(path@);
    }
    while i > 0 && path.get_char(i - 1) != '.'
        invariant
            n == path@.len(),
            i <= n,
            last_dot(path@) == last_dot(path@.subrange(0, i as int)),
            last_dot(path@) < i,
        decreases i,
    {
        assert(path@.subrange(0, i as int).drop_last() =~= path@.subrange(0, i - 1));
        i -= 1;
        proof {
            lemma_last_dot_range(path@.subrange(0, i as int));
        }
    }
    proof {
        if i > 0 {
            assert(path@.subrange(0, i as int).last() == '.');
        } else {
            assert(path@.subrange(0, 0) =~= Seq::<char>::empty());
        }
    }
    String::from_str(path.substring_char(i, n))
}

/// The host's global configuration: dotted paths and their values. When a
/// path occurs twice, the earlier entry wins.
pub struct ConfigStore {
    pub entries: Vec<CfModuleArgs>,
}

impl ConfigStore {
    /// The value that the store holds at `path`, if any.
    pub open spec fn entry(&self, path: Seq<char>) -> Option<Seq<char>> {
        find_first(self.entries@, path)
    }

    pub fn new() -> (r: ConfigStore)
        ensures
            r.entries@.len() == 0,
            forall|p: Seq<char>| r.entry(p) is None,
    {
        ConfigStore { entries: Vec::new() }
    }

    /// Sets `path` to `value`, shadowing any earlier value of it.
    pub fn set(&mut self, path: &str, value: &str)
        ensures
            final(self).entry(path@) == Some(value@),
            forall|p: Seq<char>| p != path@ ==> final(self).entry(p) == old(self).entry(p),
    {
        let e = CfModuleArgs { name: String::from_str(path), value: String::from_str(value) };
        self.entries.insert(0, e);
        assert(final(self).entries@.drop_first() =~= old(self).entries@);
    }

    /// The value at `path`, or `fallback` where the store has no entry.
    pub fn resolve_config(&self, path: &str, fallback: &str) -> (r: String)
        ensures
            r@ == resolved(self.entries@, path@, fallback@),
    {
        let key = String::from_str(path);
        match find_arg_by_name(&self.entries, &key) {
            Some(v) => v,
            None => String::from_str(fallback),
        }
    }
}

/// What the host hands a handler for one invocation: the arguments that the
/// caller supplied, in order. Names may repeat; the first match counts.
pub struct CfCallbackInfo {
    pub module_args: Vec<CfModuleArgs>,
}

impl CfCallbackInfo {
    pub fn new() -> (r: CfCallbackInfo)
        ensures
            r.module_args@.len() == 0,
    {
        CfCallbackInfo { module_args: Vec::new() }
    }

    /// Appends one caller argument.
    pub fn push_arg(&mut self, name: &str, value: &str)
        ensures
            final(self).module_args@.len() == old(self).module_args@.len() + 1,
            final(self).module_args@.drop_last() == old(self).module_args@,
            final(self).module_args@.last().name@ == name@,
            final(self).module_args@.last().value@ == value@,
    {
        let e = CfModuleArgs { name: String::from_str(name), value: String::from_str(value) };
        self.module_args.push(e);
        assert(final(self).module_args@.drop_last() =~= old(self).module_args@);
    }

    /// Resolves `path` for this invocation: an argument named by the
    /// path's last segment wins over the global store, which wins over
    /// `fallback`.
    pub fn resolve_config_from_callback(&self, cfg: &ConfigStore, path: &str, fallback: &str) -> (r: String)
        ensures
            r@ == resolved_in_context(self.module_args@, cfg.entries@, path@, fallback@),
    {
        let key = last_segment(path);
        match find_arg_by_name(&self.module_args, &key) {
            Some(v) => v,
            None => cfg.resolve_config(path, fallback),
        }
    }
}

/// Resolution against the store yields `fallback` exactly when the store
/// has no entry at `path`, provided that an entry never holds the fallback
/// itself; otherwise it yields the entry.
pub proof fn lemma_fallback_iff_absent(cfg: ConfigStore, path: Seq<char>, fallback: Seq<char>)
    requires
        cfg.entry(path) != Some(fallback),
    ensures
        (resolved(cfg.entries@, path, fallback) == fallback) <==> cfg.entry(path) is None,
        cfg.entry(path) matches Some(v) ==> resolved(cfg.entries@, path, fallback) == v,
{
}

/// A matching per-invocation argument is preferred over the global store:
/// whatever the store holds at `path`, the argument's value is returned.
pub proof fn lemma_argument_overrides_store(
    info: CfCallbackInfo,
    cfg: ConfigStore,
    path: Seq<char>,
    fallback: Seq<char>,
    v: Seq<char>,
)
    requires
        find_first(info.module_args@, local_key(path)) == Some(v),
    ensures
        resolved_in_context(info.module_args@, cfg.entries@, path, fallback) == v,
{
}

} // verus!
