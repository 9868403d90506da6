use hq::check::{credentials_outside_the_tree, Verdict};
use hq::engine::spawn::ContainerSpawner;
use hq::forge::Repo;
use hq::push::pull_request_url;
use hq::project::{Config, ForgeProtection, Project, ProtectedPaths};
use hq::mission::Bounds;
use hq::text::{decimal, replace_all, sort_texts, split_words};

fn project(root: &str, home: &str) -> Project {
    let config = Config {
        root: None,
        harness: "h".to_string(),
        forge: vec![],
        stacks: vec![],
        protected_branches: vec![],
        protected_paths: ProtectedPaths::default(),
        account: None,
        model: None,
        permission_mode: "auto".to_string(),
        bounds: Bounds::default(),
        credentials: None,
        run: None,
        services_file: None,
        forge_protection: ForgeProtection::ByHand,
    };
    Project::at(root.to_string(), config, home.to_string())
}

#[test]
fn a_project_is_named_after_its_directory() {
    let p = project("/src/shop", "/home/me/.nunki/shop");
    assert_eq!(p.name(), "shop");
    assert_eq!(p.hq_root, "/home/me/.nunki/shop/hq");
    assert_eq!(p.nunki_home(), "/home/me/.nunki");
    assert_eq!(p.session(), "shop");
    assert_eq!(project("/", "/").name(), "project");
}

#[test]
fn credentials_inside_the_tree_are_red() {
    let inside = credentials_outside_the_tree(Some("/src/shop/secrets"), "/src/shop");
    assert_eq!(inside.verdict, Verdict::Red("/src/shop/secrets is inside the repository, so the coder would read it through the tree mount".to_string()));
    let outside = credentials_outside_the_tree(Some("/src/shopping/secrets"), "/src/shop");
    assert_eq!(outside.verdict, Verdict::Green("/src/shopping/secrets".to_string()));
    assert_eq!(credentials_outside_the_tree(None, "/src/shop").verdict, Verdict::Green("none declared".to_string()));
}

#[test]
fn a_pid_file_is_named_after_the_log() {
    assert_eq!(ContainerSpawner::pid_file("/hq/runs/s-1.jsonl"), "/run/hq/s-1.pid");
}

#[test]
fn a_remote_on_github_names_its_repository() {
    let r = Repo::of_remote("git@github.com:acme/shop.git").unwrap();
    assert_eq!((r.owner.as_str(), r.name.as_str()), ("acme", "shop"));
    let r = Repo::of_remote("https://github.com/acme/shop/").unwrap();
    assert_eq!((r.owner.as_str(), r.name.as_str()), ("acme", "shop"));
    assert!(Repo::of_remote("https://gitlab.com/acme/shop").is_none());
    assert!(Repo::of_remote("https://github.com/acme").is_none());
}

#[test]
fn the_pull_request_address_comes_from_the_remote() {
    assert_eq!(
        pull_request_url("git@github.com:acme/shop.git", "main", "feat"),
        Some("https://github.com/acme/shop/compare/main...feat?expand=1".to_string())
    );
    assert_eq!(pull_request_url("https://example.org/x", "main", "feat"), None);
}

#[test]
fn text_helpers_do_what_std_does() {
    assert_eq!(replace_all("a {w} b {w}", "{w}", "x"), "a x b x");
    assert_eq!(sort_texts(&["b".to_string(), "a".to_string(), "b".to_string()]), vec!["a".to_string(), "b".to_string(), "b".to_string()]);
    assert_eq!(decimal(0), "0");
    assert_eq!(decimal(4096), "4096");
    assert_eq!(split_words("  a  b\tc "), vec!["a".to_string(), "b".to_string(), "c".to_string()]);
}
