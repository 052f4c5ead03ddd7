use worktree_prompt::battery::{is_charging, read_battery_value};
use worktree_prompt::error::Error;
use worktree_prompt::head::{final_segment, label_from_trimmed, read_git_head};
use worktree_prompt::locate::{
    find_bare_parent, find_git_dir, get_relative_path, parse_gitdir_file, resolve_gitdir,
};
use worktree_prompt::render::{
    format_output_bare, format_output_regular, format_output_worktree, normalize_path, run, Icons,
};
use worktree_prompt::text::{starts_with, text_eq};

fn parts(v: &[&str]) -> Vec<String> {
    v.iter().map(|s| s.to_string()).collect()
}

fn icons_with(branch: Option<&str>, worktree: Option<&str>) -> Icons {
    let d = Icons::standard();
    Icons::new(
        branch.map(|s| s.to_string()).unwrap_or(d.branch),
        worktree.map(|s| s.to_string()).unwrap_or(d.worktree),
    )
}

#[test]
fn test_power_calculation() {
    let current = 2000000;
    let voltage = 12000000;
    let power = (current as f64 * voltage as f64) / 1e12;
    assert!((power - 24.0).abs() < 0.1);
}

#[test]
fn test_normalize_path() {
    assert_eq!(normalize_path("DEV-123/fix-thing"), "DEV-123-fix-thing");
    assert_eq!(normalize_path("feature/something"), "feature-something");
    assert_eq!(normalize_path("simple"), "simple");
}

#[test]
fn test_format_output_regular() {
    let icons = Icons::standard();
    assert_eq!(format_output_regular(&icons, "main"), "⎇ main");
    assert_eq!(format_output_regular(&icons, "feature/add-tests"), "⎇ feature/add-tests");
    assert_eq!(format_output_regular(&icons, "a1b2c3d"), "⎇ a1b2c3d");
}

#[test]
fn test_format_output_worktree_match() {
    let icons = Icons::standard();
    assert_eq!(
        format_output_worktree(&icons, "DEV-123/fix-thing", "DEV-123-fix-thing"),
        "🌳 DEV-123/fix-thing"
    );
    assert_eq!(
        format_output_worktree(&icons, "feature/add-tests", "feature-add-tests"),
        "🌳 feature/add-tests"
    );
    assert_eq!(format_output_worktree(&icons, "simple", "simple"), "🌳 simple");
}

#[test]
fn test_format_output_worktree_mismatch() {
    let icons = Icons::standard();
    assert_eq!(
        format_output_worktree(&icons, "DEV-123/fix-thing", "main"),
        "🌳 DEV-123/fix-thing → ⎇ main"
    );
    assert_eq!(
        format_output_worktree(&icons, "feature/add-tests", "main"),
        "🌳 feature/add-tests → ⎇ main"
    );
    assert_eq!(
        format_output_worktree(&icons, "DEV-123/fix-thing", "a1b2c3d"),
        "🌳 DEV-123/fix-thing → ⎇ a1b2c3d"
    );
}

#[test]
fn test_custom_branch_icon() {
    let icons = icons_with(Some("🔀"), None);
    assert_eq!(format_output_regular(&icons, "main"), "🔀 main");
    assert_eq!(format_output_worktree(&icons, "feature/test", "main"), "🌳 feature/test → 🔀 main");
}

#[test]
fn test_custom_worktree_icon() {
    let icons = icons_with(None, Some("📁"));
    assert_eq!(format_output_worktree(&icons, "feature/test", "feature-test"), "📁 feature/test");
    assert_eq!(format_output_worktree(&icons, "feature/test", "main"), "📁 feature/test → ⎇ main");
}

#[test]
fn test_custom_both_icons() {
    let icons = icons_with(Some(""), Some("→"));
    assert_eq!(format_output_regular(&icons, "main"), " main");
    assert_eq!(format_output_worktree(&icons, "feature/test", "main"), "→ feature/test →  main");
}

#[test]
fn test_regular_repo_on_main() {
    let icons = Icons::standard();
    let work = parts(&["tmp", "repo"]);
    let r = run(&icons, Some("ref: refs/heads/main\n"), &work, &vec![false, false, false]);
    assert_eq!(r.unwrap(), Some("⎇ main".to_string()));
}

#[test]
fn test_non_git_directory() {
    assert_eq!(find_git_dir(&vec![false, false, false]), None);
    assert_eq!(find_git_dir(&vec![]), None);
}

#[test]
fn test_detached_head_state() {
    let icons = Icons::standard();
    let work = parts(&["tmp", "repo"]);
    let hash = "abcdef0123456789abcdef0123456789abcdef01\n";
    let r = run(&icons, Some(hash), &work, &vec![false]).unwrap().unwrap();
    assert_eq!(r.chars().count(), 9);
    assert_eq!(r, "⎇ abcdef0");
}

#[test]
fn test_bare_adjacent_directory() {
    let icons = Icons::standard();
    let work = parts(&["tmp", "project"]);
    let r = run(&icons, Some("ref: refs/heads/main\n"), &work, &vec![true]);
    assert_eq!(r.unwrap(), Some("🌳 [bare]".to_string()));
}

#[test]
fn test_corrupted_git_head() {
    let icons = Icons::standard();
    let work = parts(&["tmp", "repo"]);
    let r = run(&icons, Some("bad\n"), &work, &vec![false]);
    assert!(matches!(r, Err(Error::MalformedReference)));
}

#[test]
fn test_worktree_subdirectory_shows_only_worktree_name() {
    let icons = Icons::standard();
    // the checkout root, found two levels above the nested directory
    assert_eq!(find_git_dir(&vec![false, false, true, false]), Some(2));
    let work = parts(&["tmp", "project", "feat", "work-config"]);
    let r = run(
        &icons,
        Some("ref: refs/heads/feat-work-config\n"),
        &work,
        &vec![false, false, true, false],
    );
    assert_eq!(r.unwrap(), Some("🌳 feat/work-config".to_string()));
}

#[test]
fn bare_repository_without_head_gives_no_line() {
    let icons = Icons::standard();
    let r = run(&icons, None, &parts(&["srv", "repo.git"]), &vec![]);
    assert_eq!(r.unwrap(), None);
}

#[test]
fn worktree_with_other_branch_shows_both() {
    let icons = Icons::standard();
    let work = parts(&["tmp", "project", "feat", "work-config"]);
    let r = run(&icons, Some("ref: refs/heads/main"), &work, &vec![false, false, true]);
    assert_eq!(r.unwrap(), Some("🌳 feat/work-config → ⎇ main".to_string()));
}

#[test]
fn running_twice_gives_the_same_line() {
    let icons = Icons::standard();
    let work = parts(&["tmp", "project", "feat", "work-config"]);
    let marks = vec![false, false, true];
    let a = run(&icons, Some("ref: refs/heads/x"), &work, &marks).unwrap();
    let b = run(&icons, Some("ref: refs/heads/x"), &work, &marks).unwrap();
    assert_eq!(a, b);
}

#[test]
fn normalization_matches_worktree_branch() {
    assert_eq!(normalize_path("feat/work-config"), "feat-work-config");
    assert_eq!(normalize_path("feat/work-config/"), "feat-work-config");
    assert_eq!(normalize_path("a//"), "a");
    assert_eq!(normalize_path(""), "");
}

#[test]
fn head_labels() {
    assert_eq!(read_git_head("ref: refs/heads/main\n").unwrap(), "main");
    assert_eq!(read_git_head("ref: refs/heads/feat/x").unwrap(), "feat/x");
    assert_eq!(read_git_head("ref: refs/tags/v1.0").unwrap(), "v1.0");
    assert_eq!(read_git_head("ref: a/b/c").unwrap(), "c");
    assert_eq!(read_git_head("ref: plain").unwrap(), "plain");
    assert_eq!(read_git_head("ref: refs/remotes/").unwrap(), "");
    assert_eq!(read_git_head("  1234567890abc  ").unwrap(), "1234567");
    assert_eq!(read_git_head("abcdefg").unwrap(), "abcdefg");
    assert!(matches!(read_git_head("abcdef"), Err(Error::MalformedReference)));
    assert!(matches!(read_git_head(""), Err(Error::MalformedReference)));
    assert_eq!(label_from_trimmed("0123456789abcdef0123456789abcdef01234567").unwrap(), "0123456");
    assert!(matches!(label_from_trimmed(" bad"), Err(Error::MalformedReference)));
}

#[test]
fn final_segment_cases() {
    assert_eq!(final_segment("a/b/c"), "c");
    assert_eq!(final_segment("abc"), "abc");
    assert_eq!(final_segment("a/"), "");
}

#[test]
fn git_dir_search_bound() {
    let mut marks = vec![false; 40];
    marks[31] = true;
    assert_eq!(find_git_dir(&marks), Some(31));
    marks[31] = false;
    marks[32] = true;
    assert_eq!(find_git_dir(&marks), None);
    assert_eq!(find_git_dir(&vec![true, true]), Some(0));
}

#[test]
fn bare_parent_search() {
    let work = parts(&["a", "b", "c", "d", "e"]);
    assert_eq!(find_bare_parent(&work, &vec![false, true]), Some(parts(&["a", "b", "c", "d"])));
    assert_eq!(find_bare_parent(&work, &vec![false, false, false, true]), Some(parts(&["a", "b"])));
    assert_eq!(find_bare_parent(&work, &vec![false, false, false, false, true]), None);
    let shallow = parts(&["a"]);
    assert_eq!(find_bare_parent(&shallow, &vec![false, true]), Some(vec![]));
    assert_eq!(find_bare_parent(&shallow, &vec![false, false, true]), None);
}

#[test]
fn relative_paths() {
    let base = parts(&["tmp", "p"]);
    assert_eq!(get_relative_path(&base, &parts(&["tmp", "p", "feat", "x"])).unwrap(), "feat/x");
    assert_eq!(get_relative_path(&base, &base).unwrap(), "");
    assert!(matches!(get_relative_path(&base, &parts(&["tmp", "q"])), Err(Error::PathNotNested)));
    assert!(matches!(get_relative_path(&base, &parts(&["tmp"])), Err(Error::PathNotNested)));
}

#[test]
fn gitdir_files() {
    assert_eq!(parse_gitdir_file("gitdir: /srv/p/.bare\n").unwrap(), "/srv/p/.bare");
    assert_eq!(parse_gitdir_file("gitdir: ../.bare/worktrees/x  ").unwrap(), "../.bare/worktrees/x");
    assert!(matches!(parse_gitdir_file("gitdir:/x"), Err(Error::MalformedIndirection)));
    assert!(matches!(parse_gitdir_file(""), Err(Error::MalformedIndirection)));
}

#[test]
fn bare_line_and_text_helpers() {
    assert_eq!(format_output_bare(&Icons::standard()), "🌳 [bare]");
    assert!(starts_with("gitdir: x", "gitdir: "));
    assert!(!starts_with("git", "gitdir: "));
    assert!(text_eq("abc", "abc"));
    assert!(!text_eq("abc", "abd"));
    assert!(matches!(Error::from_str("boom"), Error::Other(m) if m == "boom"));
}

#[test]
fn battery_values() {
    assert_eq!(read_battery_value("2000000\n").unwrap(), 2000000);
    assert_eq!(read_battery_value(" -15 ").unwrap(), -15);
    assert_eq!(read_battery_value("+7").unwrap(), 7);
    assert_eq!(read_battery_value("9223372036854775807").unwrap(), i64::MAX);
    assert!(matches!(read_battery_value("9223372036854775808"), Err(Error::Other(_))));
    assert!(matches!(read_battery_value("12a"), Err(Error::Other(_))));
    assert!(matches!(read_battery_value(""), Err(Error::Other(_))));
    assert!(matches!(read_battery_value("-"), Err(Error::Other(_))));
    assert!(is_charging("Charging\n"));
    assert!(!is_charging("Discharging"));
}

#[test]
fn gitdir_targets_resolve() {
    let base = parts(&["tmp", "p", "main"]);
    assert_eq!(resolve_gitdir(&base, "/srv/p/.bare"), parts(&["srv", "p", ".bare"]));
    assert_eq!(
        resolve_gitdir(&base, "../.bare/worktrees/main"),
        parts(&["tmp", "p", "main", "..", ".bare", "worktrees", "main"])
    );
    assert_eq!(resolve_gitdir(&base, "a//b/"), parts(&["tmp", "p", "main", "a", "b"]));
    assert_eq!(resolve_gitdir(&base, ""), base);
    assert_eq!(resolve_gitdir(&base, "/"), parts(&[]));
}
