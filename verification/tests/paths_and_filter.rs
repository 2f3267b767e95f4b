use gitload::job::{raw_url, tree_url, user_agent, DownloaderBuilder};
use gitload::paths::{base_name, destination_path, join_path, path_is_under};
use gitload::tree::{filter_tree, RepositoryEntry};

#[test]
fn component_prefix_excludes_siblings() {
    assert!(path_is_under("nvim", "nvim/init.lua"));
    assert!(path_is_under("nvim", "nvim"));
    assert!(!path_is_under("nvim", "nvim2/init.lua"));
    assert!(path_is_under("", "anything/at/all"));
    assert!(!path_is_under("nvim/lua", "nvim/init.lua"));
    assert!(path_is_under("a/b", "a/b/c.txt"));
    assert!(!path_is_under("a/b/c.txt", "a/b"));
}

#[test]
fn tree_filter_keeps_only_files_under_target() {
    let entries = vec![
        RepositoryEntry { path: "nvim".to_string(), is_file: false },
        RepositoryEntry { path: "nvim/init.lua".to_string(), is_file: true },
        RepositoryEntry { path: "nvim/lua".to_string(), is_file: false },
        RepositoryEntry { path: "nvim/lua/set.lua".to_string(), is_file: true },
        RepositoryEntry { path: "nvim2/init.lua".to_string(), is_file: true },
        RepositoryEntry { path: "README.md".to_string(), is_file: true },
    ];
    let matched = filter_tree(&entries, "nvim");
    let paths: Vec<&str> = matched.iter().map(|e| e.path.as_str()).collect();
    assert_eq!(paths, vec!["nvim/init.lua", "nvim/lua/set.lua"]);
}

#[test]
fn tree_filter_degenerates_to_single_file() {
    let entries = vec![
        RepositoryEntry { path: "nvim".to_string(), is_file: false },
        RepositoryEntry { path: "nvim/init.lua".to_string(), is_file: true },
    ];
    let matched = filter_tree(&entries, "nvim/init.lua");
    assert_eq!(matched.len(), 1);
    assert_eq!(matched[0].path, "nvim/init.lua");
}

#[test]
fn destination_strips_prefix_and_joins() {
    assert_eq!(destination_path("a", "a/b/c.txt", "out"), "out/b/c.txt");
    assert_eq!(destination_path("a", "a", "out"), "out");
    assert_eq!(destination_path("nvim", "nvim/lua/init.lua", "dst"), "dst/lua/init.lua");
    assert_eq!(destination_path("", "b.txt", "out"), "out/b.txt");
}

#[test]
fn base_name_is_last_component() {
    assert_eq!(base_name("nvim/init.lua"), "init.lua");
    assert_eq!(base_name("init.lua"), "init.lua");
    assert_eq!(base_name("a/b/"), "");
    assert_eq!(base_name(""), "");
}

#[test]
fn join_path_uses_single_separator() {
    assert_eq!(join_path("out", "sub"), "out/sub");
    assert_eq!(join_path("", "sub"), "sub");
    assert_eq!(join_path("out", ""), "out");
}

#[test]
fn urls_are_exact() {
    assert_eq!(
        tree_url("levinion", "dotfiles", "main"),
        "https://api.github.com/repos/levinion/dotfiles/git/trees/main?recursive=1"
    );
    assert_eq!(
        raw_url("levinion", "dotfiles", "main", "nvim/init.lua"),
        "https://raw.githubusercontent.com/levinion/dotfiles/main/nvim/init.lua"
    );
    assert!(user_agent().starts_with("Mozilla/5.0"));
}

#[test]
fn builder_fills_defaults() {
    let d = DownloaderBuilder::new("levinion", "dotfiles", "nvim").build();
    assert_eq!(d.user, "levinion");
    assert_eq!(d.repo, "dotfiles");
    assert_eq!(d.branch, "main");
    assert_eq!(d.remote_path, "nvim");
    assert_eq!(d.local_path, "nvim");
}

#[test]
fn builder_honours_overrides() {
    let d = DownloaderBuilder::new("levinion", "dotfiles", "conf/nvim")
        .branch("dev")
        .local_path("./src")
        .build();
    assert_eq!(d.branch, "dev");
    assert_eq!(d.local_path, "./src/nvim");
    assert_eq!(d.remote_path, "conf/nvim");
}

#[test]
fn planned_fetches_pair_url_and_destination() {
    let d = DownloaderBuilder::new("u", "r", "nvim").build();
    let matched = vec![
        RepositoryEntry { path: "nvim/init.lua".to_string(), is_file: true },
        RepositoryEntry { path: "nvim/lua/set.lua".to_string(), is_file: true },
    ];
    let tasks = d.plan_fetches(&matched);
    assert_eq!(tasks.len(), 2);
    assert_eq!(tasks[0].url, "https://raw.githubusercontent.com/u/r/main/nvim/init.lua");
    assert_eq!(tasks[0].dest, "nvim/init.lua");
    assert_eq!(tasks[1].url, "https://raw.githubusercontent.com/u/r/main/nvim/lua/set.lua");
    assert_eq!(tasks[1].dest, "nvim/lua/set.lua");
}

#[test]
fn listing_url_comes_from_the_job() {
    let d = DownloaderBuilder::new("u", "r", "nvim").branch("dev").build();
    assert_eq!(d.listing_url(), "https://api.github.com/repos/u/r/git/trees/dev?recursive=1");
}
