use rust_user_plugin::config::{last_segment, CfCallbackInfo, ConfigStore};
use rust_user_plugin::ownership::{ReleaseError, StringLedger};
use rust_user_plugin::plugin::{dispatch, finish, make_option_path, start, Host, PluginState, StartError};
use rust_user_plugin::tree::{is_valid_name, Handler, ModuleTree, NodeState, TreeError};

#[test]
fn create_node_keeps_name_and_description() {
    let mut t = ModuleTree::new();
    let id = t.create_node("my-node_1", "  Some Description, unchanged ", Some(Handler::Status)).unwrap();
    assert_eq!(id, 0);
    assert_eq!(t.name(id).as_str(), "my-node_1");
    assert_eq!(t.description(id).as_str(), "  Some Description, unchanged ");
    assert_eq!(t.handler(id), Some(Handler::Status));
    assert_eq!(t.parent(id), None);
    assert!(t.children(id).is_empty());
    assert_eq!(t.state(id), NodeState::Building);
}

#[test]
fn create_node_rejects_invalid_names() {
    let mut t = ModuleTree::new();
    assert_eq!(t.create_node("", "d", None), Err(TreeError::InvalidName));
    assert_eq!(t.create_node("tab\there", "d", None), Err(TreeError::InvalidName));
    assert_eq!(t.create_node("caf\u{e9}", "d", None), Err(TreeError::InvalidName));
    assert_eq!(t.nodes.len(), 0);
    assert!(is_valid_name("a b~!"));
    assert!(!is_valid_name(""));
}

#[test]
fn add_child_appends_in_order() {
    let mut t = ModuleTree::new();
    let a = t.create_node("a", "", None).unwrap();
    let b = t.create_node("b", "", None).unwrap();
    let p = t.create_node("p", "", None).unwrap();
    assert_eq!(t.add_child(p, b), Ok(()));
    assert_eq!(t.add_child(p, a), Ok(()));
    assert_eq!(t.children(p), &vec![b, a]);
    assert_eq!(t.parent(a), Some(p));
    assert_eq!(t.parent(b), Some(p));
}

#[test]
fn add_child_duplicate_sibling_fails_without_change() {
    let mut t = ModuleTree::new();
    let x1 = t.create_node("x", "first", None).unwrap();
    let x2 = t.create_node("x", "second", None).unwrap();
    let p = t.create_node("p", "", None).unwrap();
    assert_eq!(t.add_child(p, x1), Ok(()));
    assert_eq!(t.add_child(p, x2), Err(TreeError::DuplicateName));
    assert_eq!(t.children(p), &vec![x1]);
    assert_eq!(t.parent(x2), None);
    assert_eq!(t.description(x2).as_str(), "second");
}

#[test]
fn attaching_an_attached_node_keeps_its_parent() {
    let mut t = ModuleTree::new();
    let c = t.create_node("c", "", None).unwrap();
    let p1 = t.create_node("p1", "", None).unwrap();
    let p2 = t.create_node("p2", "", None).unwrap();
    assert_eq!(t.add_child(p1, c), Ok(()));
    assert_eq!(t.add_child(p2, c), Err(TreeError::AlreadyAttached));
    assert_eq!(t.parent(c), Some(p1));
    assert_eq!(t.children(p1), &vec![c]);
    assert!(t.children(p2).is_empty());
}

#[test]
fn add_child_refuses_cycles_and_unknown_nodes() {
    let mut t = ModuleTree::new();
    let c = t.create_node("c", "", None).unwrap();
    let p = t.create_node("p", "", None).unwrap();
    assert_eq!(t.add_child(p, p), Err(TreeError::WouldCycle));
    assert_eq!(t.add_child(p, c), Ok(()));
    assert_eq!(t.add_child(c, p), Err(TreeError::WouldCycle));
    assert_eq!(t.add_child(p, 9), Err(TreeError::UnknownNode));
    assert_eq!(t.add_child(9, c), Err(TreeError::UnknownNode));
}

#[test]
fn register_and_release_trees() {
    let mut t = ModuleTree::new();
    let c = t.create_node("c", "", None).unwrap();
    let r1 = t.create_node("root", "", None).unwrap();
    let r2 = t.create_node("root", "", None).unwrap();
    assert_eq!(t.add_child(r1, c), Ok(()));
    assert_eq!(t.register_tree(c), Err(TreeError::NotRoot));
    assert_eq!(t.register_tree(r1), Ok(()));
    assert_eq!(t.state(c), NodeState::Registered);
    assert_eq!(t.register_tree(r1), Err(TreeError::NotOwned));
    assert_eq!(t.register_tree(r2), Err(TreeError::DuplicateRoot));
    assert_eq!(t.state(r2), NodeState::Building);
    assert_eq!(t.release_tree(r1), Err(TreeError::NotOwned));
    assert_eq!(t.release_tree(r2), Ok(()));
    assert_eq!(t.release_tree(r2), Err(TreeError::DoubleRelease));
    assert_eq!(t.add_child(r2, c), Err(TreeError::NotOwned));
    assert_eq!(t.registered, vec![r1]);
}

#[test]
fn resolve_config_falls_back_only_when_absent() {
    let mut cfg = ConfigStore::new();
    assert_eq!(cfg.resolve_config("plugin.demo.username", "rustacean").as_str(), "rustacean");
    assert_eq!(cfg.resolve_config("plugin.demo.username", "").as_str(), "");
    cfg.set("plugin.demo.username", "ada");
    assert_eq!(cfg.resolve_config("plugin.demo.username", "rustacean").as_str(), "ada");
    assert_eq!(cfg.resolve_config("plugin.demo.username", "").as_str(), "ada");
    assert_eq!(cfg.resolve_config("plugin.demo.other", "").as_str(), "");
    cfg.set("plugin.demo.username", "grace");
    assert_eq!(cfg.resolve_config("plugin.demo.username", "x").as_str(), "grace");
}

#[test]
fn callback_argument_wins_over_global_store() {
    let mut cfg = ConfigStore::new();
    cfg.set("plugin.demo.x", "B");
    let mut info = CfCallbackInfo::new();
    assert_eq!(info.resolve_config_from_callback(&cfg, "plugin.demo.x", "F").as_str(), "B");
    info.push_arg("x", "A");
    assert_eq!(info.resolve_config_from_callback(&cfg, "plugin.demo.x", "F").as_str(), "A");
    info.push_arg("x", "later");
    assert_eq!(info.resolve_config_from_callback(&cfg, "plugin.demo.x", "F").as_str(), "A");
    assert_eq!(info.resolve_config_from_callback(&cfg, "plugin.demo.y", "F").as_str(), "F");
}

#[test]
fn last_segment_of_dotted_paths() {
    assert_eq!(last_segment("plugin.demo.format").as_str(), "format");
    assert_eq!(last_segment("format").as_str(), "format");
    assert_eq!(last_segment("a.").as_str(), "");
    assert_eq!(last_segment("").as_str(), "");
    assert_eq!(make_option_path("demo", "format").as_str(), "plugin.demo.format");
}

#[test]
fn owned_strings_release_once() {
    let mut l = StringLedger::new();
    assert!(l.all_released());
    let s = l.allocate(String::from("hello"));
    assert_eq!(s.text().as_str(), "hello");
    assert_eq!(s.id(), 0);
    assert!(!l.all_released());
    assert_eq!(l.release(&s), Ok(()));
    assert!(l.all_released());
    assert_eq!(l.release(&s), Err(ReleaseError::DoubleRelease));
    assert!(l.all_released());
    let mut other = StringLedger::new();
    assert_eq!(other.release(&s), Err(ReleaseError::Unknown));
}

fn demo_host(format: Option<&str>) -> Host {
    let mut cfg = ConfigStore::new();
    cfg.set("plugin.demo.username", "ada");
    if let Some(f) = format {
        cfg.set("plugin.demo.format", f);
    }
    Host::new(cfg)
}

#[test]
fn end_to_end_default_format() {
    let mut host = demo_host(None);
    let mut plugin = PluginState::new("demo");
    assert_eq!(start(&mut plugin, &mut host), Ok(()));
    assert!(plugin.registered);
    let root = plugin.root.unwrap();
    assert_eq!(host.modules.name(root).as_str(), "demo");
    let kids = host.modules.children(root).clone();
    let names: Vec<String> = kids.iter().map(|k| host.modules.name(*k).clone()).collect();
    assert_eq!(names, vec!["name", "language", "status"]);
    assert!(host.strings.all_released());
    let info = CfCallbackInfo::new();
    let out = dispatch(&plugin, &mut host, kids[0], &info).unwrap();
    assert_eq!(out.text().as_str(), "ada (default)");
    assert_eq!(host.release_owned_string(&out), Ok(()));
    assert!(host.strings.all_released());
}

#[test]
fn end_to_end_short_format() {
    let mut host = demo_host(Some("long"));
    let mut plugin = PluginState::new("demo");
    assert_eq!(start(&mut plugin, &mut host), Ok(()));
    let root = plugin.root.unwrap();
    let name_node = host.modules.children(root)[0];
    let mut info = CfCallbackInfo::new();
    assert_eq!(dispatch(&plugin, &mut host, name_node, &info).unwrap().text().as_str(), "ada (long)");
    info.push_arg("format", "short");
    assert_eq!(dispatch(&plugin, &mut host, name_node, &info).unwrap().text().as_str(), "ada (short)");
}

#[test]
fn language_and_status_providers() {
    let mut host = Host::new(ConfigStore::new());
    let mut plugin = PluginState::new("rust-user");
    assert_eq!(start(&mut plugin, &mut host), Ok(()));
    let root = plugin.root.unwrap();
    let kids = host.modules.children(root).clone();
    let info = CfCallbackInfo::new();
    assert_eq!(dispatch(&plugin, &mut host, kids[0], &info).unwrap().text().as_str(), "rustacean (default)");
    assert_eq!(dispatch(&plugin, &mut host, kids[1], &info).unwrap().text().as_str(), "Rust");
    assert_eq!(dispatch(&plugin, &mut host, kids[2], &info).unwrap().text().as_str(), "Learning customfetch plugins");
    assert!(dispatch(&plugin, &mut host, root, &info).is_none());
    assert!(dispatch(&plugin, &mut host, 99, &info).is_none());
}

#[test]
fn name_provider_without_username() {
    let mut host = Host::new(ConfigStore::new());
    let mut solo = PluginState::new("demo");
    let p = host.modules.create_node("name", "", Some(Handler::UserName)).unwrap();
    let out = dispatch(&solo, &mut host, p, &CfCallbackInfo::new()).unwrap();
    assert_eq!(out.text().as_str(), "unknown (default)");
    solo.username = Some(String::from("lin"));
    let out = dispatch(&solo, &mut host, p, &CfCallbackInfo::new()).unwrap();
    assert_eq!(out.text().as_str(), "lin (default)");
}

#[test]
fn register_collision_then_finish_releases_once() {
    let mut host = demo_host(None);
    let other = host.modules.create_node("demo", "another plugin", None).unwrap();
    assert_eq!(host.modules.register_tree(other), Ok(()));
    let mut plugin = PluginState::new("demo");
    assert_eq!(start(&mut plugin, &mut host), Err(StartError::Register(TreeError::DuplicateRoot)));
    assert!(!plugin.registered);
    let root = plugin.root.unwrap();
    assert_eq!(host.modules.state(root), NodeState::Building);
    assert_eq!(finish(&mut plugin, &mut host), Ok(()));
    assert_eq!(host.modules.state(root), NodeState::Released);
    assert_eq!(host.modules.state(host.modules.children(root)[0]), NodeState::Released);
    assert_eq!(plugin.root, None);
    assert_eq!(plugin.username, None);
    assert_eq!(finish(&mut plugin, &mut host), Ok(()));
    assert_eq!(host.modules.release_tree(root), Err(TreeError::DoubleRelease));
    assert_eq!(host.modules.state(other), NodeState::Registered);
}

#[test]
fn finish_leaves_registered_tree_to_host() {
    let mut host = demo_host(None);
    let mut plugin = PluginState::new("demo");
    assert_eq!(start(&mut plugin, &mut host), Ok(()));
    assert_eq!(start(&mut plugin, &mut host), Err(StartError::AlreadyActive));
    let root = plugin.root.unwrap();
    assert_eq!(finish(&mut plugin, &mut host), Ok(()));
    assert_eq!(host.modules.state(root), NodeState::Registered);
    assert!(!plugin.active);
    assert_eq!(plugin.username, None);
}

#[test]
fn start_with_invalid_plugin_name_builds_nothing() {
    let mut host = demo_host(None);
    let mut plugin = PluginState::new("");
    assert_eq!(start(&mut plugin, &mut host), Err(StartError::InvalidName));
    assert!(plugin.active);
    assert_eq!(plugin.username.as_deref(), Some("rustacean"));
    assert_eq!(host.modules.nodes.len(), 0);
    assert_eq!(plugin.root, None);
}
