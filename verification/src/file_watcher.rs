//! What the server reloads when the files of its sites change.

use vstd::prelude::*;

verus! {

/// Which file of a site is (re)loaded.
#[derive(PartialEq, Eq, Structural, Debug, Clone, Copy)]
pub enum LoadKind {
    /// The site description, `content.json`.
    Content,
    /// The blog, `data/data.json`.
    Data,
}

/// One file to load into the site at position `site` of the watched sites.
pub struct SiteLoad {
    pub site: usize,
    pub kind: LoadKind,
    pub path: String,
}

/// A changed file as the watcher reports it.
pub struct ChangedPath {
    /// The components of the path, each written as its `Debug` form.
    pub components: Vec<String>,
    /// The last component of the path, if it has one.
    pub file_name: Option<String>,
    /// The path written in its `Debug` form.
    pub path: String,
}

/// An event of the file watcher.
pub enum WatchEvent {
    Write(ChangedPath),
    Remove(ChangedPath),
    /// Any other event of the watcher.
    Other,
    /// The watcher's channel failed.
    Failed,
}

/// What the watcher does with an event.
pub enum WatchAction {
    /// Load these files.
    Load(Vec<SiteLoad>),
    /// Log the event.
    Log,
    /// Log the failure.
    LogError,
}

/// Positions (in order) of the sites whose key is one of `components`.
pub open spec fn reloaded_sites(keys: Seq<Seq<char>>, components: Seq<Seq<char>>) -> Seq<int>
    decreases keys.len(),
{
    if keys.len() == 0 {
        Seq::empty()
    } else if components.contains(keys.last()) {
        reloaded_sites(keys.drop_last(), components).push(keys.len() - 1)
    } else {
        reloaded_sites(keys.drop_last(), components)
    }
}

/// The kind of file that a changed file named `file_name` is loaded as.
pub open spec fn spec_load_kind(file_name: Option<Seq<char>>) -> LoadKind {
    if file_name == Some("content.json"@) {
        LoadKind::Content
    } else {
        LoadKind::Data
    }
}

/// The characters of an optional string.
pub open spec fn opt_string_view(o: Option<String>) -> Option<Seq<char>> {
    match o {
        Some(s) => Some(s@),
        None => None,
    }
}

/// `loads` loads `path` as a file of kind `kind` into exactly the sites `sites`, in
/// that order.
pub open spec fn loads_are(loads: Seq<SiteLoad>, sites: Seq<int>, kind: LoadKind, path: Seq<char>) -> bool {
    &&& loads.len() == sites.len()
    &&& forall|j: int|
        0 <= j < loads.len() ==> {
            &&& #[trigger] loads[j].site == sites[j]
            &&& loads[j].kind == kind
            &&& loads[j].path@ == path
        }
}

fn contains_string(v: &Vec<String>, s: &String) -> (b: bool)
    ensures
        b == v.deep_view().contains(s@),
{
    let mut i: usize = 0;
    while i < v.len()
        invariant
            i <= v.len(),
            forall|j: int| 0 <= j < i ==> v@[j]@ != s@,
        decreases v.len() - i,
    {
        if v[i] == *s {
            assert(v.deep_view()[i as int] == s@);
            return true;
        }
        i = i + 1;
    }
    proof {
        if v.deep_view().contains(s@) {
            let k = choose|k: int| 0 <= k < v.deep_view().len() && v.deep_view()[k] == s@;
            assert(v@[k]@ == s@);
        }
    }
    false
}

/// The files to load after the file at `path` changed: for each watched site (in
/// the order of `site_keys`) whose key is one of the path's components, the
/// changed file, as its description when it is named `content.json` and as its
/// blog otherwise.
pub fn load_file(site_keys: &Vec<String>, path: &ChangedPath) -> (loads: Vec<SiteLoad>)
    ensures
        loads_are(
            loads@,
            reloaded_sites(site_keys.deep_view(), path.components.deep_view()),
            spec_load_kind(opt_string_view(path.file_name)),
            path.path@,
        ),
{
    let content_json = String::from_str("content.json");
    let kind = match &path.file_name {
        Some(n) => if *n == content_json { LoadKind::Content } else { LoadKind::Data },
        None => LoadKind::Data,
    };
    let ghost keys = site_keys.deep_view();
    let ghost comps = path.components.deep_view();
    let mut loads: Vec<SiteLoad> = Vec::new();
    let mut i: usize = 0;
    while i < site_keys.len()
        invariant
            i <= site_keys.len(),
            keys == site_keys.deep_view(),
            comps == path.components.deep_view(),
            kind == spec_load_kind(opt_string_view(path.file_name)),
            loads_are(loads@, reloaded_sites(keys.take(i as int), comps), kind, path.path@),
        decreases site_keys.len() - i,
    {
        assert(keys.take(i + 1).drop_last() =~= keys.take(i as int));
        assert(keys.take(i + 1).last() == site_keys@[i as int]@);
        let ghost before = loads@;
        let ghost prev = reloaded_sites(keys.take(i as int), comps);
        if contains_string(&path.components, &site_keys[i]) {
            loads.push(SiteLoad { site: i, kind, path: path.path.clone() });
            assert(reloaded_sites(keys.take(i + 1), comps) == prev.push(i as int));
            assert forall|j: int| 0 <= j < loads@.len() implies {
                &&& #[trigger] loads@[j].site == prev.push(i as int)[j]
                &&& loads@[j].kind == kind
                &&& loads@[j].path@ == path.path@
            } by {
                if j < before.len() {
                    assert(loads@[j] == before[j]);
                    assert(before[j].site == prev[j]);
                    assert(prev.push(i as int)[j] == prev[j]);
                } else {
                    assert(j == prev.len());
                }
            }
        } else {
            assert(reloaded_sites(keys.take(i + 1), comps) == prev);
        }
        i = i + 1;
    }
    assert(keys.take(site_keys.len() as int) =~= keys);
    loads
}

/// Where the description of site `address` is stored.
pub open spec fn content_path(zeronet_path: Seq<char>, address: Seq<char>) -> Seq<char> {
    zeronet_path + "/"@ + address + "/content.json"@
}

/// Where the blog of site `address` is stored.
pub open spec fn data_path(zeronet_path: Seq<char>, address: Seq<char>) -> Seq<char> {
    zeronet_path + "/"@ + address + "/data/data.json"@
}

/// `loads` holds, at positions `2 * i` and `2 * i + 1`, the description and the
/// blog of site `i`.
pub open spec fn site_loads_at(loads: Seq<SiteLoad>, zeronet_path: Seq<char>, site_keys: Seq<String>, i: int) -> bool {
    &&& loads[2 * i].site == i
    &&& loads[2 * i].kind == LoadKind::Content
    &&& loads[2 * i].path@ == content_path(zeronet_path, site_keys[i]@)
    &&& loads[2 * i + 1].site == i
    &&& loads[2 * i + 1].kind == LoadKind::Data
    &&& loads[2 * i + 1].path@ == data_path(zeronet_path, site_keys[i]@)
}

/// The files to load when the watcher starts: for each site, in order, its
/// description and then its blog.
pub fn load_sites(zeronet_path: &str, site_keys: &Vec<String>) -> (loads: Vec<SiteLoad>)
    ensures
        loads@.len() == 2 * site_keys.len(),
        forall|i: int|
            0 <= i < site_keys.len() ==> #[trigger] site_loads_at(loads@, zeronet_path@, site_keys@, i),
        load_entries(loads@) == startup_loads(zeronet_path@, site_keys.deep_view()),
{
    let mut loads: Vec<SiteLoad> = Vec::new();
    let mut i: usize = 0;
    while i < site_keys.len()
        invariant
            i <= site_keys.len(),
            loads@.len() == 2 * i,
            forall|k: int|
                0 <= k < i ==> #[trigger] site_loads_at(loads@, zeronet_path@, site_keys@, k),
        decreases site_keys.len() - i,
    {
        let address = site_keys[i].as_str();
        let mut content = String::from_str(zeronet_path);
        content.append("/");
        content.append(address);
        content.append("/content.json");
        let mut data = String::from_str(zeronet_path);
        data.append("/");
        data.append(address);
        data.append("/data/data.json");
        assert(content@ =~= content_path(zeronet_path@, site_keys@[i as int]@));
        assert(data@ =~= data_path(zeronet_path@, site_keys@[i as int]@));
        let ghost before = loads@;
        loads.push(SiteLoad { site: i, kind: LoadKind::Content, path: content });
        loads.push(SiteLoad { site: i, kind: LoadKind::Data, path: data });
        assert forall|k: int| 0 <= k < i + 1 implies #[trigger] site_loads_at(loads@, zeronet_path@, site_keys@, k) by {
            if k < i {
                assert(loads@[2 * k] == before[2 * k]);
                assert(loads@[2 * k + 1] == before[2 * k + 1]);
                assert(site_loads_at(before, zeronet_path@, site_keys@, k));
            } else {
                assert(2 * k == before.len());
            }
        }
        i = i + 1;
    }
    proof {
        let keys = site_keys.deep_view();
        let run = startup_loads(zeronet_path@, keys);
        lemma_startup_loads(zeronet_path@, keys);
        assert forall|j: int| 0 <= j < loads@.len() implies load_entries(loads@)[j] == run[j] by {
            let k = j / 2;
            assert(0 <= k < site_keys.len());
            assert(site_loads_at(loads@, zeronet_path@, site_keys@, k));
            assert(keys[k] == site_keys@[k]@);
            let c = startup_loads(zeronet_path@, keys)[2 * k];
            let d = startup_loads(zeronet_path@, keys)[2 * k + 1];
            if j % 2 == 0 {
                assert(j == 2 * k);
                assert(load_entries(loads@)[2 * k] == c);
            } else {
                assert(j == 2 * k + 1);
                assert(load_entries(loads@)[2 * k + 1] == d);
            }
        }
        assert(load_entries(loads@) =~= run);
    }
    loads
}

/// What the watcher does with `event`: a written or removed file is loaded into
/// the sites it belongs to (see `load_file`); other events are logged, and a
/// failure of the watcher is logged as an error.
pub fn watch_step(site_keys: &Vec<String>, event: &WatchEvent) -> (action: WatchAction)
    ensures
        match event {
            WatchEvent::Write(p) | WatchEvent::Remove(p) => action matches WatchAction::Load(loads)
                && loads_are(
                loads@,
                reloaded_sites(site_keys.deep_view(), p.components.deep_view()),
                spec_load_kind(opt_string_view(p.file_name)),
                p.path@,
            ),
            WatchEvent::Other => action is Log,
            WatchEvent::Failed => action is LogError,
        },
        match action {
            WatchAction::Load(loads) => load_entries(loads@) == event_loads(site_keys.deep_view(), *event),
            _ => event_loads(site_keys.deep_view(), *event).len() == 0,
        },
{
    let action = 
match event {
        WatchEvent::Write(p) => WatchAction::Load(load_file(site_keys, p)),
        WatchEvent::Remove(p) => WatchAction::Load(load_file(site_keys, p)),
        WatchEvent::Other => WatchAction::Log,
        WatchEvent::Failed => WatchAction::LogError,
    };
    proof {
        match event {
            WatchEvent::Write(p) | WatchEvent::Remove(p) => {
                if let WatchAction::Load(loads) = &action {
                    assert(load_entries(loads@) =~= event_loads(site_keys.deep_view(), *event));
                }
            },
            _ => {},
        }
    }
    action
}

/// One load as a plain value: the site's position, the kind of file and the path.
pub open spec fn load_entry(l: SiteLoad) -> (int, LoadKind, Seq<char>) {
    (l.site as int, l.kind, l.path@)
}

/// The loads of a list, as plain values.
pub open spec fn load_entries(loads: Seq<SiteLoad>) -> Seq<(int, LoadKind, Seq<char>)> {
    loads.map_values(|l: SiteLoad| load_entry(l))
}

/// The loads made when the watcher starts: for each site in order, its
/// description and then its blog.
pub open spec fn startup_loads(zeronet_path: Seq<char>, keys: Seq<Seq<char>>) -> Seq<(int, LoadKind, Seq<char>)>
    decreases keys.len(),
{
    if keys.len() == 0 {
        Seq::empty()
    } else {
        startup_loads(zeronet_path, keys.drop_last()) + seq![
            (keys.len() - 1, LoadKind::Content, content_path(zeronet_path, keys.last())),
            (keys.len() - 1, LoadKind::Data, data_path(zeronet_path, keys.last())),
        ]
    }
}

/// The loads with which the watcher answers `event`: the changed file, for each
/// site it belongs to, when a file was written or removed; nothing otherwise.
pub open spec fn event_loads(keys: Seq<Seq<char>>, event: WatchEvent) -> Seq<(int, LoadKind, Seq<char>)> {
    match event {
        WatchEvent::Write(p) | WatchEvent::Remove(p) => reloaded_sites(keys, p.components.deep_view()).map_values(
            |i: int| (i, spec_load_kind(opt_string_view(p.file_name)), p.path@),
        ),
        _ => Seq::empty(),
    }
}

/// The loads of a whole run of the watcher that has received `events`: the
/// startup loads, then the answer to each event in the order of arrival.
pub open spec fn watch_run(zeronet_path: Seq<char>, keys: Seq<Seq<char>>, events: Seq<WatchEvent>) -> Seq<(int, LoadKind, Seq<char>)>
    decreases events.len(),
{
    if events.len() == 0 {
        startup_loads(zeronet_path, keys)
    } else {
        watch_run(zeronet_path, keys, events.drop_last()) + event_loads(keys, events.last())
    }
}

/// The startup loads hold, at positions `2 * i` and `2 * i + 1`, the description
/// and the blog of site `i`, and nothing else.
pub proof fn lemma_startup_loads(zeronet_path: Seq<char>, keys: Seq<Seq<char>>)
    ensures
        startup_loads(zeronet_path, keys).len() == 2 * keys.len(),
        forall|i: int|
            0 <= i < keys.len() ==> {
                &&& #[trigger] startup_loads(zeronet_path, keys)[2 * i] == (i, LoadKind::Content, content_path(zeronet_path, keys[i]))
                &&& startup_loads(zeronet_path, keys)[2 * i + 1] == (i, LoadKind::Data, data_path(zeronet_path, keys[i]))
            },
    decreases keys.len(),
{
    if keys.len() > 0 {
        let prev = keys.drop_last();
        lemma_startup_loads(zeronet_path, prev);
        assert forall|i: int| 0 <= i < keys.len() implies {
            &&& #[trigger] startup_loads(zeronet_path, keys)[2 * i] == (i, LoadKind::Content, content_path(zeronet_path, keys[i]))
            &&& startup_loads(zeronet_path, keys)[2 * i + 1] == (i, LoadKind::Data, data_path(zeronet_path, keys[i]))
        } by {
            if i < prev.len() {
                assert(startup_loads(zeronet_path, prev)[2 * i] == (i, LoadKind::Content, content_path(zeronet_path, prev[i])));
                assert(prev[i] == keys[i]);
            }
        }
    }
}

/// The positions of the sites that a change reloads are positions of watched
/// sites, in increasing order.
pub proof fn lemma_reloaded_sites_in_range(keys: Seq<Seq<char>>, components: Seq<Seq<char>>)
    ensures
        forall|j: int|
            0 <= j < reloaded_sites(keys, components).len() ==> 0 <= #[trigger] reloaded_sites(keys, components)[j] < keys.len(),
    decreases keys.len(),
{
    if keys.len() > 0 {
        let prev = reloaded_sites(keys.drop_last(), components);
        lemma_reloaded_sites_in_range(keys.drop_last(), components);
        assert forall|j: int|
            0 <= j < reloaded_sites(keys, components).len() implies 0 <= #[trigger] reloaded_sites(keys, components)[j] < keys.len() by {
            if j < prev.len() {
                assert(reloaded_sites(keys, components)[j] == prev[j]);
            }
        }
    }
}

/// A run of the watcher: it starts with the startup loads; each further event
/// adds its answer after what came before; events other than a written or
/// removed file add nothing; and every load of the run goes to a watched site.
pub proof fn lemma_watch_run(zeronet_path: Seq<char>, keys: Seq<Seq<char>>, events: Seq<WatchEvent>, event: WatchEvent)
    ensures
        watch_run(zeronet_path, keys, Seq::empty()) == startup_loads(zeronet_path, keys),
        watch_run(zeronet_path, keys, events.push(event)) == watch_run(zeronet_path, keys, events)
            + event_loads(keys, event),
        (event is Other || event is Failed) ==> watch_run(zeronet_path, keys, events.push(event))
            == watch_run(zeronet_path, keys, events),
        watch_run(zeronet_path, keys, events).len() >= 2 * keys.len(),
        forall|j: int|
            0 <= j < watch_run(zeronet_path, keys, events).len() ==> 0 <= (#[trigger] watch_run(zeronet_path, keys, events)[j]).0 < keys.len(),
    decreases events.len(),
{
    assert(events.push(event).drop_last() =~= events);
    lemma_startup_loads(zeronet_path, keys);
    if events.len() == 0 {
        assert forall|j: int| 0 <= j < startup_loads(zeronet_path, keys).len() implies 0 <= (#[trigger] startup_loads(zeronet_path, keys)[j]).0 < keys.len() by {
            let k = j / 2;
            if j % 2 == 0 {
                assert(j == 2 * k);
                assert(startup_loads(zeronet_path, keys)[2 * k].0 == k);
            } else {
                assert(j == 2 * k + 1);
                assert(startup_loads(zeronet_path, keys)[2 * k].0 == k);
            }
        }
    } else {
        let prev = events.drop_last();
        lemma_watch_run(zeronet_path, keys, prev, events.last());
        let before = watch_run(zeronet_path, keys, prev);
        let added = event_loads(keys, events.last());
        assert forall|j: int| 0 <= j < added.len() implies 0 <= (#[trigger] added[j]).0 < keys.len() by {
            match events.last() {
                WatchEvent::Write(p) | WatchEvent::Remove(p) => {
                    lemma_reloaded_sites_in_range(keys, p.components.deep_view());
                    assert(added[j].0 == reloaded_sites(keys, p.components.deep_view())[j]);
                },
                _ => {},
            }
        }
        assert forall|j: int| 0 <= j < watch_run(zeronet_path, keys, events).len() implies 0 <= (#[trigger] watch_run(zeronet_path, keys, events)[j]).0 < keys.len() by {
            if j < before.len() {
                assert(watch_run(zeronet_path, keys, events)[j] == before[j]);
            } else {
                assert(watch_run(zeronet_path, keys, events)[j] == added[j - before.len()]);
            }
        }
    }
}

} // verus!
