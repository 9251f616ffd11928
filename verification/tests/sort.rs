use web_gateway::files::ProjectFileEntry;
use web_gateway::sort::sort_stable;

fn entry(name: &str, path: &str) -> ProjectFileEntry {
    ProjectFileEntry { name: name.to_string(), path: path.to_string(), is_dir: false }
}

#[test]
fn sorting_is_stable() {
    let sorted = sort_stable(vec![entry("b", "1"), entry("a", "2"), entry("b", "3"), entry("a", "4")]);
    let paths: Vec<&str> = sorted.iter().map(|e| e.path.as_str()).collect();
    assert_eq!(paths, vec!["2", "4", "1", "3"]);
    assert_eq!(sort_stable(Vec::<ProjectFileEntry>::new()), vec![]);
}
