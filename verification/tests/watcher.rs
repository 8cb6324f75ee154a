use zeroblog_server::file_watcher::{load_file, load_sites, watch_step, ChangedPath, LoadKind, WatchAction, WatchEvent};
use zeroblog_server::routes::{css_file, data_file, font_file, served_file};

fn changed(components: &[&str], file_name: Option<&str>, path: &str) -> ChangedPath {
    ChangedPath {
        components: components.iter().map(|c| c.to_string()).collect(),
        file_name: file_name.map(|f| f.to_string()),
        path: path.to_string(),
    }
}

fn keys() -> Vec<String> {
    vec!["A".to_string(), "B".to_string(), "C".to_string()]
}

#[test]
fn changed_content_is_reloaded_into_its_sites() {
    let loads = load_file(&keys(), &changed(&["root", "C", "A"], Some("content.json"), "p"));
    assert_eq!(loads.len(), 2);
    assert_eq!((loads[0].site, loads[0].kind, loads[0].path.as_str()), (0, LoadKind::Content, "p"));
    assert_eq!((loads[1].site, loads[1].kind), (2, LoadKind::Content));
}

#[test]
fn other_files_are_reloaded_as_data() {
    let loads = load_file(&keys(), &changed(&["B", "data"], Some("data.json"), "q"));
    assert_eq!(loads.len(), 1);
    assert_eq!((loads[0].site, loads[0].kind), (1, LoadKind::Data));
    let loads = load_file(&keys(), &changed(&["B"], None, "q"));
    assert_eq!(loads[0].kind, LoadKind::Data);
    assert!(load_file(&keys(), &changed(&["X"], Some("content.json"), "q")).is_empty());
}

#[test]
fn startup_loads_every_site() {
    let loads = load_sites("/zn", &keys());
    assert_eq!(loads.len(), 6);
    assert_eq!(loads[2].site, 1);
    assert_eq!(loads[2].kind, LoadKind::Content);
    assert_eq!(loads[2].path, "/zn/B/content.json");
    assert_eq!(loads[3].kind, LoadKind::Data);
    assert_eq!(loads[3].path, "/zn/B/data/data.json");
}

#[test]
fn watcher_events() {
    match watch_step(&keys(), &WatchEvent::Write(changed(&["A"], Some("content.json"), "p"))) {
        WatchAction::Load(l) => assert_eq!(l.len(), 1),
        _ => panic!("a write reloads"),
    }
    match watch_step(&keys(), &WatchEvent::Remove(changed(&["Z"], None, "p"))) {
        WatchAction::Load(l) => assert!(l.is_empty()),
        _ => panic!("a removal reloads"),
    }
    assert!(matches!(watch_step(&keys(), &WatchEvent::Other), WatchAction::Log));
    assert!(matches!(watch_step(&keys(), &WatchEvent::Failed), WatchAction::LogError));
}

#[test]
fn site_files() {
    assert_eq!(css_file(&keys(), "/zn", "A"), Some(vec!["/zn".to_string(), "A".to_string(), "css/all.css".to_string()]));
    assert_eq!(css_file(&keys(), "/zn", "Q"), None);
    assert_eq!(
        data_file(&keys(), "/zn", "B", vec!["img".to_string(), "x.png".to_string()]),
        Some(vec!["/zn".to_string(), "B".to_string(), "data".to_string(), "img".to_string(), "x.png".to_string()])
    );
    assert_eq!(font_file(&keys(), "/zn", "C", vec![]), Some(vec!["/zn".to_string(), "C".to_string(), "fonts".to_string()]));
    assert_eq!(data_file(&keys(), "/zn", "D", vec![]), None);
    assert_eq!(served_file(vec!["d".to_string()], true), vec!["d".to_string(), "index.html".to_string()]);
    assert_eq!(served_file(vec!["d".to_string()], false), vec!["d".to_string()]);
}

#[test]
fn a_whole_run_of_the_watcher() {
    let keys = keys();
    let mut run: Vec<(usize, LoadKind, String)> =
        load_sites("/zn", &keys).into_iter().map(|l| (l.site, l.kind, l.path)).collect();
    let events = vec![
        WatchEvent::Write(changed(&["B"], Some("content.json"), "w")),
        WatchEvent::Other,
        WatchEvent::Failed,
        WatchEvent::Remove(changed(&["A", "C"], Some("data.json"), "r")),
    ];
    for e in &events {
        if let WatchAction::Load(loads) = watch_step(&keys, e) {
            run.extend(loads.into_iter().map(|l| (l.site, l.kind, l.path)));
        }
    }
    assert_eq!(run.len(), 6 + 1 + 2);
    assert_eq!(run[6], (1, LoadKind::Content, "w".to_string()));
    assert_eq!(run[7], (0, LoadKind::Data, "r".to_string()));
    assert_eq!(run[8], (2, LoadKind::Data, "r".to_string()));
    assert!(run.iter().all(|(site, _, _)| *site < keys.len()));
}
