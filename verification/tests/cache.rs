use full_dataset_cache::cache::{
    map_builder, notices_for, set_builder, MirrorCache, MirrorCacheBuilder, Notice, Observation,
    Outcome,
};
use full_dataset_cache::callbacks::{
    FailureCallback, Fallback, OnFailure, OnUpdate, Quiet, UpdateCallback,
};
use full_dataset_cache::collections::{UpdatingMap, UpdatingSet};
use full_dataset_cache::error::Error;
use full_dataset_cache::metrics::{Metrics, NoMetrics};
use full_dataset_cache::processors::{RawConfigProcessor, RawLineMapProcessor, RawLineSetProcessor};
use full_dataset_cache::sources::{check_marker, ConfigSource, SourceCheck};
use std::collections::{HashMap, HashSet, VecDeque};
use std::str::FromStr;
use std::sync::{Arc, Mutex};
use std::time::{Duration, SystemTime};

#[derive(Clone)]
enum Step {
    Unchanged,
    Fails(&'static str),
    Data(u128, &'static str),
}

struct Script {
    steps: Mutex<VecDeque<Step>>,
    asked_with: Arc<Mutex<Vec<Option<u128>>>>,
}

impl Script {
    fn new(steps: &[Step]) -> Script {
        Script {
            steps: Mutex::new(steps.iter().cloned().collect()),
            asked_with: Arc::new(Mutex::new(Vec::new())),
        }
    }
}

impl ConfigSource for Script {
    type Raw = Vec<u8>;

    fn check(&self, last_version: &Option<u128>) -> SourceCheck {
        self.asked_with.lock().unwrap().push(*last_version);
        let mut steps = self.steps.lock().unwrap();
        match steps.front() {
            Some(Step::Unchanged) => {
                steps.pop_front();
                SourceCheck::Unchanged
            }
            _ => SourceCheck::Changed,
        }
    }

    fn fetch(&self) -> Result<(u128, Vec<u8>), Error> {
        match self.steps.lock().unwrap().pop_front() {
            Some(Step::Data(version, text)) => Ok((version, text.as_bytes().to_vec())),
            Some(Step::Fails(why)) => Err(Error::new(why)),
            _ => Err(Error::new("nothing left to fetch")),
        }
    }
}

#[derive(Clone)]
struct Log {
    lines: Arc<Mutex<Vec<String>>>,
}

impl Log {
    fn new() -> Log {
        Log { lines: Arc::new(Mutex::new(Vec::new())) }
    }

    fn push(&self, line: String) {
        self.lines.lock().unwrap().push(line);
    }

    fn take(&self) -> Vec<String> {
        std::mem::take(&mut *self.lines.lock().unwrap())
    }
}

impl UpdateCallback<HashMap<String, Arc<i32>>> for Log {
    fn updated(
        &self,
        previous: &Option<u128>,
        version: &Option<u128>,
        collection: &HashMap<String, Arc<i32>>,
    ) {
        let mut keys: Vec<String> =
            collection.iter().map(|(k, v)| format!("{}={}", k, v)).collect();
        keys.sort();
        self.push(format!("updated {:?} -> {:?} [{}]", previous, version, keys.join(",")));
    }
}

impl FailureCallback for Log {
    fn failed(&self, err: &Error, last_version: &Option<u128>) {
        self.push(format!("failed '{}' at {:?}", err.message(), last_version));
    }
}

impl Metrics for Log {
    fn update(&self, new_version: &Option<u128>, _fetch_time: Duration, _process_time: Duration) {
        self.push(format!("update {:?}", new_version));
    }

    fn last_successful_update(&self, _ts: &SystemTime) {
        self.push(String::from("last_successful_update"));
    }

    fn check_no_update(&self, _check_time: &Duration) {
        self.push(String::from("check_no_update"));
    }

    fn last_successful_check(&self, _ts: &SystemTime) {
        self.push(String::from("last_successful_check"));
    }

    fn fallback_invoked(&self) {
        self.push(String::from("fallback_invoked"));
    }

    fn fetch_error(&self, err: &Error) {
        self.push(format!("fetch_error '{}'", err.message()));
    }

    fn process_error(&self, err: &Error) {
        self.push(format!("process_error '{}'", err.message()));
    }
}

fn parse_entry(raw: String) -> Result<Option<(String, i32)>, Error> {
    if raw.trim().is_empty() || raw.starts_with('#') {
        return Ok(None);
    }
    if let Some((k, v)) = raw.split_once('=') {
        Ok(Some((String::from(k), i32::from_str(v)?)))
    } else {
        Err(Error::new(format!("Failed to parse '{}'", raw).as_str()))
    }
}

fn parse_word(raw: String) -> Result<Option<String>, Error> {
    if raw.is_empty() {
        Ok(None)
    } else if raw.contains(' ') {
        Err(Error::new("one word a line"))
    } else {
        Ok(Some(raw))
    }
}

type EntryParser = fn(String) -> Result<Option<(String, i32)>, Error>;
type MapProcessor = RawLineMapProcessor<String, i32, EntryParser>;
type MapEngine<U, F, M> = MirrorCache<UpdatingMap<String, i32>, Script, MapProcessor, U, F, M>;

fn map_processor() -> MapProcessor {
    RawLineMapProcessor::new(parse_entry as EntryParser)
}

fn plain(entries: &[(&str, i32)]) -> HashMap<String, i32> {
    entries.iter().map(|(k, v)| (String::from(*k), *v)).collect()
}

fn shared(entries: &[(&str, i32)]) -> HashMap<String, Arc<i32>> {
    entries.iter().map(|(k, v)| (String::from(*k), Arc::new(*v))).collect()
}

fn logged(steps: &[Step], fallback: Option<HashMap<String, i32>>) -> (MapEngine<Log, Log, Log>, Log, Log, Log) {
    let (updates, failures, metrics) = (Log::new(), Log::new(), Log::new());
    let mut builder = map_builder()
        .with_source(Script::new(steps))
        .with_processor(map_processor())
        .with_fetch_interval(Duration::from_secs(2))
        .with_update_callback(updates.clone())
        .with_failure_callback(failures.clone())
        .with_metrics(metrics.clone());
    if let Some(fallback) = fallback {
        builder = builder.with_fallback(Fallback::with_value(fallback));
    }
    (builder.build().unwrap(), updates, failures, metrics)
}

fn message_of<T>(built: Result<T, Error>) -> String {
    match built {
        Ok(_) => String::from("built"),
        Err(err) => err.to_string(),
    }
}

#[test]
fn build_needs_a_source() {
    let builder: MirrorCacheBuilder<UpdatingMap<String, i32>, Script, MapProcessor, Quiet, Quiet, NoMetrics> =
        map_builder().with_processor(map_processor()).with_fetch_interval(Duration::from_secs(1));
    assert_eq!(message_of(builder.build()), "a source is required");
}

#[test]
fn build_needs_a_processor() {
    let builder: MirrorCacheBuilder<UpdatingMap<String, i32>, Script, MapProcessor, Quiet, Quiet, NoMetrics> =
        map_builder().with_source(Script::new(&[])).with_fetch_interval(Duration::from_secs(1));
    assert_eq!(message_of(builder.build()), "a processor is required");
}

#[test]
fn build_needs_a_fetch_interval() {
    let builder = map_builder().with_source(Script::new(&[])).with_processor(map_processor());
    assert_eq!(message_of(builder.build()), "a fetch interval is required");
}

#[test]
fn build_names_the_first_part_that_is_missing() {
    let builder: MirrorCacheBuilder<UpdatingMap<String, i32>, Script, MapProcessor, Quiet, Quiet, NoMetrics> =
        MirrorCacheBuilder::new();
    assert_eq!(message_of(builder.build()), "a source is required");
}

#[test]
fn build_keeps_what_it_was_given() {
    let cache = map_builder()
        .with_source(Script::new(&[]))
        .with_processor(map_processor())
        .with_fetch_interval(Duration::from_millis(1500))
        .with_name("my-cache")
        .build()
        .unwrap();
    assert_eq!(cache.name(), &Some(String::from("my-cache")));
    assert_eq!(cache.fetch_interval(), Duration::from_millis(1500));
    assert_eq!(cache.last_version(), None);
}

#[test]
fn build_without_a_fallback_leaves_the_cell_empty() {
    let (mut cache, updates, failures, metrics) = logged(&[Step::Fails("down")], None);
    let map = cache.get_collection();
    assert_eq!(*map.get_read_lock(), None);
    assert_eq!(metrics.take(), Vec::<String>::new());
    assert!(matches!(cache.refresh(), Outcome::FetchFailed(_)));
    assert_eq!(*map.get_read_lock(), None);
    assert_eq!(cache.last_version(), None);
    assert_eq!(failures.take(), vec!["failed 'down' at None"]);
    assert_eq!(updates.take(), Vec::<String>::new());
}

#[test]
fn build_with_a_fallback_seeds_the_cell_at_version_zero() {
    let (cache, _updates, _failures, metrics) = logged(&[], Some(plain(&[("C", 3)])));
    assert_eq!(metrics.take(), vec!["fallback_invoked"]);
    assert_eq!(cache.last_version(), Some(0));
    let map = cache.get_collection();
    assert_eq!(*map.get_read_lock(), Some((0, shared(&[("C", 3)]))));
    assert_eq!(map.get(&String::from("C")), Some(Arc::new(3)));
    assert_eq!(map.len(), 1);
}

#[test]
fn fallback_stays_while_the_source_fails() {
    let steps = [Step::Fails("down"), Step::Fails("still down"), Step::Fails("down again")];
    let (mut cache, updates, failures, metrics) = logged(&steps, Some(plain(&[("C", 3)])));
    let map = cache.get_collection();
    metrics.take();
    for why in ["down", "still down", "down again"] {
        assert_eq!(map.get(&String::from("C")), Some(Arc::new(3)));
        let outcome = cache.refresh();
        assert!(matches!(outcome, Outcome::FetchFailed(ref err) if err.message() == why));
        assert_eq!(failures.take(), vec![format!("failed '{}' at Some(0)", why)]);
        assert_eq!(metrics.take(), vec![format!("fetch_error '{}'", why)]);
        assert_eq!(*map.get_read_lock(), Some((0, shared(&[("C", 3)]))));
        assert_eq!(map.len(), 1);
    }
    assert_eq!(updates.take(), Vec::<String>::new());
    assert_eq!(cache.last_version(), Some(0));
}

#[test]
fn refresh_publishes_what_it_fetched() {
    let steps = [Step::Data(7, "A=1\nB=2\n#comment\n")];
    let (mut cache, updates, failures, metrics) = logged(&steps, None);
    let map = cache.get_collection();
    let outcome = cache.refresh();
    assert!(matches!(outcome, Outcome::Updated { previous: None, version: 7 }));
    assert_eq!(cache.last_version(), Some(7));
    assert_eq!(*map.get_read_lock(), Some((7, shared(&[("A", 1), ("B", 2)]))));
    assert_eq!(map.get(&String::from("A")), Some(Arc::new(1)));
    assert_eq!(map.get(&String::from("#comment")), None);
    assert_eq!(map.len(), 2);
    assert_eq!(updates.take(), vec!["updated None -> Some(7) [A=1,B=2]"]);
    assert_eq!(failures.take(), Vec::<String>::new());
    assert_eq!(
        metrics.take(),
        vec!["update Some(7)", "last_successful_update", "last_successful_check"]
    );
}

#[test]
fn refresh_that_finds_nothing_changed_is_silent() {
    let steps = [Step::Data(7, "A=1\n"), Step::Unchanged, Step::Unchanged];
    let (mut cache, updates, failures, metrics) = logged(&steps, None);
    let map = cache.get_collection();
    cache.refresh();
    let before = map.get_read_lock();
    updates.take();
    metrics.take();
    for _ in 0..2 {
        assert!(matches!(cache.refresh(), Outcome::Unchanged));
        assert_eq!(cache.last_version(), Some(7));
        assert!(Arc::ptr_eq(&map.get_read_lock(), &before));
        assert_eq!(updates.take(), Vec::<String>::new());
        assert_eq!(failures.take(), Vec::<String>::new());
        assert_eq!(metrics.take(), vec!["check_no_update", "last_successful_check"]);
    }
}

#[test]
fn refresh_with_the_version_in_place_publishes_nothing() {
    let steps = [Step::Data(7, "A=1\n"), Step::Data(7, "A=2\n")];
    let (mut cache, updates, _failures, metrics) = logged(&steps, None);
    let map = cache.get_collection();
    cache.refresh();
    let before = map.get_read_lock();
    updates.take();
    metrics.take();
    assert!(matches!(cache.refresh(), Outcome::Unchanged));
    assert!(Arc::ptr_eq(&map.get_read_lock(), &before));
    assert_eq!(map.get(&String::from("A")), Some(Arc::new(1)));
    assert_eq!(updates.take(), Vec::<String>::new());
    assert_eq!(metrics.take(), vec!["check_no_update", "last_successful_check"]);
}

#[test]
fn refresh_with_version_zero_over_a_fallback_publishes_nothing() {
    let steps = [Step::Data(0, "A=1\n"), Step::Data(1, "A=1\n")];
    let (mut cache, _updates, _failures, _metrics) = logged(&steps, Some(plain(&[("C", 3)])));
    let map = cache.get_collection();
    assert!(matches!(cache.refresh(), Outcome::Unchanged));
    assert_eq!(*map.get_read_lock(), Some((0, shared(&[("C", 3)]))));
    assert!(matches!(cache.refresh(), Outcome::Updated { previous: Some(0), version: 1 }));
    assert_eq!(*map.get_read_lock(), Some((1, shared(&[("A", 1)]))));
}

#[test]
fn refresh_tells_each_publish_with_its_own_version_and_collection() {
    let steps = [Step::Data(1, "A=1\n"), Step::Data(2, "B=2\n"), Step::Data(5, "C=3\nD=4\n")];
    let (mut cache, updates, _failures, _metrics) = logged(&steps, None);
    let map = cache.get_collection();
    let mut versions = Vec::new();
    for _ in 0..3 {
        cache.refresh();
        versions.push(cache.last_version().unwrap());
    }
    assert_eq!(versions, vec![1, 2, 5]);
    assert_eq!(
        updates.take(),
        vec![
            "updated None -> Some(1) [A=1]",
            "updated Some(1) -> Some(2) [B=2]",
            "updated Some(2) -> Some(5) [C=3,D=4]",
        ]
    );
    assert_eq!(*map.get_read_lock(), Some((5, shared(&[("C", 3), ("D", 4)]))));
}

#[test]
fn refresh_publishes_a_smaller_version_that_the_source_hands_out() {
    let steps = [Step::Data(5, "A=1\n"), Step::Data(3, "A=2\n")];
    let (mut cache, _updates, _failures, _metrics) = logged(&steps, None);
    cache.refresh();
    assert!(matches!(cache.refresh(), Outcome::Updated { previous: Some(5), version: 3 }));
    assert_eq!(cache.last_version(), Some(3));
}

#[test]
fn refresh_that_fails_to_process_line_three_of_five_changes_nothing() {
    let steps = [Step::Data(1, "A=1\n"), Step::Data(2, "A=10\nB=20\nbroken\nD=40\nE=50\n")];
    let (mut cache, updates, failures, metrics) = logged(&steps, None);
    let map = cache.get_collection();
    cache.refresh();
    let before = map.get_read_lock();
    updates.take();
    metrics.take();
    let outcome = cache.refresh();
    assert!(
        matches!(outcome, Outcome::ProcessFailed(ref err) if err.message() == "Failed to parse 'broken'")
    );
    assert!(Arc::ptr_eq(&map.get_read_lock(), &before));
    assert_eq!(*map.get_read_lock(), Some((1, shared(&[("A", 1)]))));
    assert_eq!(map.get(&String::from("B")), None);
    assert_eq!(cache.last_version(), Some(1));
    assert_eq!(updates.take(), Vec::<String>::new());
    assert_eq!(failures.take(), vec!["failed 'Failed to parse 'broken'' at Some(1)"]);
    assert_eq!(metrics.take(), vec!["process_error 'Failed to parse 'broken''"]);
}

#[test]
fn refresh_recovers_after_a_failure() {
    let steps = [Step::Fails("down"), Step::Data(4, "A=1\n"), Step::Fails("down"), Step::Data(6, "A=2\n")];
    let (mut cache, _updates, _failures, _metrics) = logged(&steps, None);
    let map = cache.get_collection();
    assert!(matches!(cache.refresh(), Outcome::FetchFailed(_)));
    assert!(matches!(cache.refresh(), Outcome::Updated { previous: None, version: 4 }));
    assert!(matches!(cache.refresh(), Outcome::FetchFailed(_)));
    assert_eq!(map.get(&String::from("A")), Some(Arc::new(1)));
    assert!(matches!(cache.refresh(), Outcome::Updated { previous: Some(4), version: 6 }));
    assert_eq!(map.get(&String::from("A")), Some(Arc::new(2)));
}

#[test]
fn refresh_asks_the_source_with_the_version_in_place() {
    let source = Script::new(&[Step::Data(4, "A=1\n"), Step::Unchanged, Step::Fails("down")]);
    let asked_with = source.asked_with.clone();
    let mut cache = map_builder()
        .with_source(source)
        .with_processor(map_processor())
        .with_fetch_interval(Duration::from_secs(1))
        .build()
        .unwrap();
    for _ in 0..3 {
        cache.refresh();
    }
    assert_eq!(*asked_with.lock().unwrap(), vec![None, Some(4), Some(4)]);
}

#[test]
fn apply_decides_from_the_slot_and_what_was_found() {
    let (mut cache, _updates, _failures, _metrics) = logged(&[], None);
    let map = cache.get_collection();
    assert!(matches!(cache.apply(Observation::Unchanged), Outcome::Unchanged));
    assert!(matches!(cache.apply(Observation::FetchFailed(Error::new("f"))), Outcome::FetchFailed(_)));
    assert!(matches!(cache.apply(Observation::ProcessFailed(Error::new("p"))), Outcome::ProcessFailed(_)));
    assert_eq!(*map.get_read_lock(), None);
    let outcome = cache.apply(Observation::Ready(9, shared(&[("A", 1)])));
    assert!(matches!(outcome, Outcome::Updated { previous: None, version: 9 }));
    assert_eq!(*map.get_read_lock(), Some((9, shared(&[("A", 1)]))));
    let outcome = cache.apply(Observation::Ready(9, shared(&[("A", 2)])));
    assert!(matches!(outcome, Outcome::Unchanged));
    assert_eq!(*map.get_read_lock(), Some((9, shared(&[("A", 1)]))));
    let outcome = cache.apply(Observation::Ready(10, shared(&[("A", 2)])));
    assert!(matches!(outcome, Outcome::Updated { previous: Some(9), version: 10 }));
    assert_eq!(*map.get_read_lock(), Some((10, shared(&[("A", 2)]))));
}

#[test]
fn views_of_one_engine_observe_the_same_generation() {
    let steps = [Step::Data(1, "A=1\n"), Step::Data(2, "A=2\n")];
    let (mut cache, _updates, _failures, _metrics) = logged(&steps, Some(HashMap::new()));
    let views: Vec<UpdatingMap<String, i32>> = (0..5).map(|_| cache.get_collection()).collect();
    let clones: Vec<UpdatingMap<String, i32>> = views.iter().map(|view| view.clone()).collect();
    for expected in [None, Some(Arc::new(1)), Some(Arc::new(2))] {
        let seen = views[0].get_read_lock();
        for view in views.iter().chain(clones.iter()) {
            assert!(Arc::ptr_eq(&view.get_read_lock(), &seen));
            assert_eq!(view.get(&String::from("A")), expected);
        }
        cache.refresh();
    }
}

#[test]
fn views_outlive_the_engine() {
    let (mut cache, _updates, _failures, _metrics) = logged(&[Step::Data(1, "A=1\n")], None);
    let map = cache.get_collection();
    cache.refresh();
    drop(cache);
    assert_eq!(map.get(&String::from("A")), Some(Arc::new(1)));
}

#[test]
fn set_engine_mirrors_a_set() {
    let source = Script::new(&[Step::Data(1, "red\ngreen\n\nred\n"), Step::Data(2, "two words\n")]);
    let processor = RawLineSetProcessor::new(parse_word);
    let mut cache = set_builder()
        .with_source(source)
        .with_processor(processor)
        .with_fetch_interval(Duration::from_secs(1))
        .with_fallback(Fallback::with_value(HashSet::from([String::from("blue")])))
        .build()
        .unwrap();
    let set: UpdatingSet<String> = cache.get_collection();
    assert!(set.contains(&String::from("blue")));
    assert!(matches!(cache.refresh(), Outcome::Updated { previous: Some(0), version: 1 }));
    assert!(set.contains(&String::from("red")));
    assert!(set.contains(&String::from("green")));
    assert!(!set.contains(&String::from("blue")));
    assert_eq!(set.len(), 2);
    assert!(matches!(cache.refresh(), Outcome::ProcessFailed(_)));
    assert_eq!(set.len(), 2);
    assert!(!set.is_empty());
}

#[test]
fn fallback_hands_out_its_value() {
    assert_eq!(Fallback::with_value(plain(&[("A", 1)])).into_value(), plain(&[("A", 1)]));
}

#[test]
fn processors_of_other_kinds_fit_the_engine() {
    struct Fixed;
    impl RawConfigProcessor<Vec<u8>, HashSet<u8>> for Fixed {
        fn process(&self, raw: Vec<u8>) -> Result<HashSet<u8>, Error> {
            Ok(raw.into_iter().collect())
        }
    }
    let mut cache = set_builder()
        .with_source(Script::new(&[Step::Data(3, "abca")]))
        .with_processor(Fixed)
        .with_fetch_interval(Duration::from_secs(1))
        .build()
        .unwrap();
    let set: UpdatingSet<u8> = cache.get_collection();
    cache.refresh();
    assert_eq!(set.len(), 3);
    assert!(set.contains(&b'c'));
}

#[test]
fn callbacks_can_be_plain_functions() {
    let told = Arc::new(Mutex::new(Vec::new()));
    let (on_update, on_failure) = (told.clone(), told.clone());
    let steps = [Step::Data(3, "A=1\n"), Step::Fails("down")];
    let mut cache = map_builder()
        .with_source(Script::new(&steps))
        .with_processor(map_processor())
        .with_fetch_interval(Duration::from_secs(1))
        .with_update_callback(OnUpdate::with_fn(
            move |previous: &Option<u128>, version: &Option<u128>, collection: &HashMap<String, Arc<i32>>| {
                on_update.lock().unwrap().push(format!(
                    "{:?} -> {} with {} entries",
                    previous,
                    version.unwrap_or(0),
                    collection.len()
                ));
            },
        ))
        .with_failure_callback(OnFailure::with_fn(move |err: &Error, last: &Option<u128>| {
            on_failure.lock().unwrap().push(format!("{} at {:?}", err.message(), last));
        }))
        .build()
        .unwrap();
    cache.refresh();
    cache.refresh();
    assert_eq!(*told.lock().unwrap(), vec!["None -> 3 with 1 entries", "down at Some(3)"]);
}

#[test]
fn notices_follow_the_outcome() {
    assert_eq!(
        notices_for(&Outcome::Unchanged),
        vec![Notice::MetricsCheckNoUpdate, Notice::MetricsLastSuccessfulCheck]
    );
    assert_eq!(
        notices_for(&Outcome::Updated { previous: Some(1), version: 2 }),
        vec![
            Notice::CallOnUpdate,
            Notice::MetricsUpdate,
            Notice::MetricsLastSuccessfulUpdate,
            Notice::MetricsLastSuccessfulCheck,
        ]
    );
    assert_eq!(
        notices_for(&Outcome::FetchFailed(Error::new("f"))),
        vec![Notice::CallOnFailure, Notice::MetricsFetchError]
    );
    assert_eq!(
        notices_for(&Outcome::ProcessFailed(Error::new("p"))),
        vec![Notice::CallOnFailure, Notice::MetricsProcessError]
    );
}

#[test]
fn check_marker_tells_change_by_the_version_in_place() {
    assert_eq!(check_marker(&None, 5), SourceCheck::Changed);
    assert_eq!(check_marker(&Some(4), 5), SourceCheck::Changed);
    assert_eq!(check_marker(&Some(5), 5), SourceCheck::Unchanged);
    assert_eq!(check_marker(&Some(0), 0), SourceCheck::Unchanged);
}
