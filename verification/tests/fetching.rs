use std::collections::HashMap;

use wallpaper_archive::date::Date;
use wallpaper_archive::engine::{
    persist, Action, Event, Fetch, PictureManager, StoredMetadata, DEFAULT_BACKFILL_WINDOW,
};
use wallpaper_archive::error::ArchiveError;
use wallpaper_archive::paths::{build_image_path, build_info_path};
use wallpaper_archive::remote::RemoteImageRecord;

/// A disk and a remote service held in memory, with counts of what was asked of them.
struct Fake {
    files: HashMap<String, Vec<u8>>,
    directories: Vec<String>,
    /// The day published at offset -1; each offset further back is one day earlier.
    latest: Date,
    url: Option<String>,
    start_date: Option<String>,
    malformed: bool,
    fail_metadata_at: Option<usize>,
    fail_image: bool,
    fail_write: bool,
    metadata_requests: Vec<String>,
    image_requests: Vec<String>,
    probes: Vec<String>,
    writes: Vec<String>,
}

fn fake(latest: Date) -> Fake {
    Fake {
        files: HashMap::new(),
        directories: Vec::new(),
        latest,
        url: Some(String::from("/img.jpg")),
        start_date: None,
        malformed: false,
        fail_metadata_at: None,
        fail_image: false,
        fail_write: false,
        metadata_requests: Vec::new(),
        image_requests: Vec::new(),
        probes: Vec::new(),
        writes: Vec::new(),
    }
}

fn compact(day: Date) -> String {
    format!("{:04}{:02}{:02}", day.year, day.month, day.day)
}

fn body_for(start_date: &str) -> Vec<u8> {
    format!("{{\"images\":[{{\"startdate\":\"{}\"}}]}}", start_date).into_bytes()
}

fn perform(world: &mut Fake, fetch: &Fetch, action: Action) -> Result<Event, Result<(), ArchiveError>> {
    match action {
        Action::RequestMetadata { url } => {
            let nth = world.metadata_requests.len();
            world.metadata_requests.push(url);
            if world.fail_metadata_at == Some(nth) {
                return Ok(Event::Failed(ArchiveError::Network));
            }
            let start_date = match &world.start_date {
                Some(s) => s.clone(),
                None => compact(world.latest.offset(-(fetch.offset() + 1)).unwrap()),
            };
            let body = body_for(&start_date);
            if world.malformed {
                return Ok(Event::Metadata { body, record: None });
            }
            Ok(Event::Metadata {
                body,
                record: Some(RemoteImageRecord {
                    start_date: Some(start_date),
                    url: world.url.clone(),
                    copyright: Some(String::from("A view (c) Someone")),
                    copyright_link: Some(String::from("https://example.org/about")),
                }),
            })
        }
        Action::Probe { path } => {
            let present = world.files.contains_key(&path);
            world.probes.push(path);
            Ok(Event::Probed(present))
        }
        Action::CreateDirectory { path } => {
            world.directories.push(path);
            Ok(Event::DirectoryReady)
        }
        Action::WriteFile { path, contents } => {
            if world.fail_write {
                return Ok(Event::Failed(ArchiveError::Filesystem));
            }
            world.writes.push(path.clone());
            world.files.insert(path, contents);
            Ok(Event::Written)
        }
        Action::RequestImage { url } => {
            world.image_requests.push(url);
            if world.fail_image {
                return Ok(Event::Failed(ArchiveError::Network));
            }
            Ok(Event::Image(vec![0xff, 0xd8, 0xff]))
        }
        Action::Finish(outcome) => Err(outcome),
    }
}

fn drive(world: &mut Fake, begun: (Fetch, Action)) -> Result<(), ArchiveError> {
    let (mut fetch, mut action) = begun;
    loop {
        match perform(world, &fetch, action) {
            Err(outcome) => {
                assert!(fetch.is_finished());
                return outcome;
            }
            Ok(event) => {
                assert!(fetch.expects(&event));
                let (next, then) = fetch.advance(event);
                fetch = next;
                action = then;
            }
        }
    }
}

fn new_year() -> Date {
    Date { year: 2024, month: 1, day: 1 }
}

#[test]
fn new_manager_has_a_window_of_ten() {
    assert_eq!(PictureManager::new().past_wallpaper_range, 10);
    assert_eq!(DEFAULT_BACKFILL_WINDOW, 10);
}

#[test]
fn fetch_latest_fills_an_empty_archive() {
    let mut world = fake(new_year());
    let manager = PictureManager::new();
    let outcome = drive(&mut world, manager.fetch_last_wallpaper("/data", ""));
    assert_eq!(outcome, Ok(()));
    assert_eq!(
        world.metadata_requests,
        vec![String::from("http://www.bing.com/HpImageArchive.aspx?format=js&n=1&idx=-1&cc=")]
    );
    assert_eq!(world.image_requests, vec![String::from("https://www.bing.com/img.jpg")]);
    assert_eq!(
        world.writes,
        vec![String::from("/data/2024-01-01.json"), String::from("/data/2024-01-01.jpg")]
    );
    assert_eq!(world.files.get("/data/2024-01-01.json"), Some(&body_for("20240101")));
    assert_eq!(world.files.get("/data/2024-01-01.jpg"), Some(&vec![0xff, 0xd8, 0xff]));
    assert!(world.files.contains_key(&build_image_path("/data", "2024-01-01", "")));
    assert_eq!(world.directories, vec![String::from("/data"), String::from("/data")]);
    let info = PictureManager::get_wallpaper_info(StoredMetadata::Parsed(RemoteImageRecord {
        start_date: Some(String::from("20240101")),
        url: Some(String::from("/img.jpg")),
        copyright: Some(String::from("A view (c) Someone")),
        copyright_link: Some(String::from("https://example.org/about")),
    }));
    assert_eq!(
        info,
        Ok((String::from("A view (c) Someone"), String::from("https://example.org/about")))
    );
}

#[test]
fn second_fetch_of_the_same_day_is_a_cache_hit() {
    let mut world = fake(new_year());
    let manager = PictureManager::new();
    assert_eq!(drive(&mut world, manager.fetch_last_wallpaper("/data", "")), Ok(()));
    assert_eq!(drive(&mut world, manager.fetch_last_wallpaper("/data", "")), Ok(()));
    assert_eq!(world.image_requests.len(), 1);
    assert_eq!(world.writes.len(), 2);
    assert_eq!(world.metadata_requests.len(), 2);
    assert_eq!(world.directories.len(), 2);
}

#[test]
fn metadata_without_image_is_not_complete_and_only_the_image_is_fetched() {
    let mut world = fake(new_year());
    world.files.insert(build_info_path("/data", "2024-01-01", ""), vec![1, 2, 3]);
    assert!(!world.files.contains_key(&build_image_path("/data", "2024-01-01", "")));
    let manager = PictureManager::new();
    assert_eq!(drive(&mut world, manager.fetch_last_wallpaper("/data", "")), Ok(()));
    assert_eq!(world.writes, vec![String::from("/data/2024-01-01.jpg")]);
    assert_eq!(world.image_requests.len(), 1);
    assert_eq!(world.files.get("/data/2024-01-01.json"), Some(&vec![1, 2, 3]));
    assert!(world.files.contains_key(&build_image_path("/data", "2024-01-01", "")));
}

#[test]
fn image_without_metadata_gets_its_metadata_written() {
    let mut world = fake(new_year());
    world.files.insert(build_image_path("/data", "2024-01-01", ""), vec![9]);
    let manager = PictureManager::new();
    assert_eq!(drive(&mut world, manager.fetch_last_wallpaper("/data", "")), Ok(()));
    assert_eq!(world.writes, vec![String::from("/data/2024-01-01.json")]);
    assert!(world.image_requests.is_empty());
    assert_eq!(world.files.get("/data/2024-01-01.jpg"), Some(&vec![9]));
}

#[test]
fn range_of_ten_asks_for_eleven_offsets_in_order() {
    let mut world = fake(Date { year: 2024, month: 1, day: 11 });
    let manager = PictureManager::new();
    assert_eq!(drive(&mut world, manager.fetch_wallpapers("/data", "US")), Ok(()));
    let expected: Vec<String> = (-1..10)
        .map(|i| format!("http://www.bing.com/HpImageArchive.aspx?format=js&n=1&idx={}&cc=US", i))
        .collect();
    assert_eq!(world.metadata_requests, expected);
    assert_eq!(world.image_requests.len(), 11);
    assert_eq!(world.writes.len(), 22);
    assert_eq!(world.writes[0], "/data/2024-01-11_US.json");
    assert_eq!(world.writes[1], "/data/2024-01-11_US.jpg");
    assert_eq!(world.writes[21], "/data/2024-01-01_US.jpg");
    assert_eq!(world.files.len(), 22);
}

#[test]
fn range_over_a_full_cache_writes_nothing_and_probes_every_entry() {
    let mut world = fake(Date { year: 2024, month: 1, day: 11 });
    let manager = PictureManager::new();
    assert_eq!(drive(&mut world, manager.fetch_wallpapers("/data", "")), Ok(()));
    let writes = world.writes.len();
    let downloads = world.image_requests.len();
    world.probes.clear();
    world.metadata_requests.clear();
    assert_eq!(drive(&mut world, manager.fetch_wallpapers("/data", "")), Ok(()));
    assert_eq!(world.writes.len(), writes);
    assert_eq!(world.image_requests.len(), downloads);
    assert_eq!(world.metadata_requests.len(), 11);
    let info_probes = world.probes.iter().filter(|p| p.ends_with(".json")).count();
    let image_probes = world.probes.iter().filter(|p| p.ends_with(".jpg")).count();
    assert_eq!(info_probes, 11);
    assert_eq!(image_probes, 11);
}

#[test]
fn first_failure_ends_the_range_and_keeps_what_was_written() {
    let mut world = fake(Date { year: 2024, month: 1, day: 11 });
    world.fail_metadata_at = Some(3);
    let manager = PictureManager::new();
    assert_eq!(
        drive(&mut world, manager.fetch_wallpapers("/data", "")),
        Err(ArchiveError::Network)
    );
    assert_eq!(world.metadata_requests.len(), 4);
    assert_eq!(world.files.len(), 6);
    assert!(world.files.contains_key("/data/2024-01-11.jpg"));
    assert!(world.files.contains_key("/data/2024-01-09.jpg"));
    assert!(!world.files.contains_key("/data/2024-01-08.jpg"));
}

#[test]
fn an_empty_window_ends_at_once() {
    let mut world = fake(new_year());
    let manager = PictureManager { past_wallpaper_range: -1 };
    let (fetch, action) = manager.fetch_wallpapers("/data", "");
    assert!(fetch.is_finished());
    assert!(matches!(action, Action::Finish(Ok(()))));
    let manager = PictureManager { past_wallpaper_range: -1 };
    assert_eq!(drive(&mut world, manager.fetch_wallpapers("/data", "")), Ok(()));
    assert!(world.metadata_requests.is_empty());
}

#[test]
fn a_window_of_zero_is_the_latest_alone() {
    let mut world = fake(new_year());
    let manager = PictureManager { past_wallpaper_range: 0 };
    assert_eq!(drive(&mut world, manager.fetch_wallpapers("/data", "")), Ok(()));
    assert_eq!(world.metadata_requests.len(), 1);
    assert_eq!(world.files.len(), 2);
}

#[test]
fn image_failure_leaves_the_metadata_and_no_image() {
    let mut world = fake(new_year());
    world.fail_image = true;
    let manager = PictureManager::new();
    assert_eq!(
        drive(&mut world, manager.fetch_last_wallpaper("/data", "")),
        Err(ArchiveError::Network)
    );
    assert!(world.files.contains_key("/data/2024-01-01.json"));
    assert!(!world.files.contains_key("/data/2024-01-01.jpg"));
    world.fail_image = false;
    assert_eq!(drive(&mut world, manager.fetch_last_wallpaper("/data", "")), Ok(()));
    assert_eq!(world.writes, vec![
        String::from("/data/2024-01-01.json"),
        String::from("/data/2024-01-01.jpg")
    ]);
}

#[test]
fn write_failure_is_reported_as_it_came() {
    let mut world = fake(new_year());
    world.fail_write = true;
    let manager = PictureManager::new();
    assert_eq!(
        drive(&mut world, manager.fetch_last_wallpaper("/data", "")),
        Err(ArchiveError::Filesystem)
    );
    assert!(world.files.is_empty());
    assert!(world.image_requests.is_empty());
}

#[test]
fn malformed_body_is_a_json_error() {
    let mut world = fake(new_year());
    world.malformed = true;
    let manager = PictureManager::new();
    assert_eq!(
        drive(&mut world, manager.fetch_last_wallpaper("/data", "")),
        Err(ArchiveError::JsonParse)
    );
    assert!(world.probes.is_empty());
    assert!(world.files.is_empty());
}

#[test]
fn record_without_url_is_a_json_error() {
    let mut world = fake(new_year());
    world.url = None;
    let manager = PictureManager::new();
    assert_eq!(
        drive(&mut world, manager.fetch_last_wallpaper("/data", "")),
        Err(ArchiveError::JsonParse)
    );
    assert!(world.files.is_empty());
}

#[test]
fn bad_start_date_is_a_date_error() {
    let mut world = fake(new_year());
    world.start_date = Some(String::from("2024-01-01"));
    let manager = PictureManager::new();
    assert_eq!(
        drive(&mut world, manager.fetch_last_wallpaper("/data", "")),
        Err(ArchiveError::DateParse)
    );
    assert!(world.files.is_empty());
}

#[test]
fn absolute_image_url_is_requested_verbatim() {
    let mut world = fake(new_year());
    world.url = Some(String::from("https://cdn.example/x.jpg"));
    let manager = PictureManager::new();
    assert_eq!(drive(&mut world, manager.fetch_last_wallpaper("/data", "")), Ok(()));
    assert_eq!(world.image_requests, vec![String::from("https://cdn.example/x.jpg")]);
}

#[test]
fn entry_is_keyed_by_the_reported_day() {
    let mut world = fake(new_year());
    world.start_date = Some(String::from("20231231"));
    let manager = PictureManager::new();
    assert_eq!(drive(&mut world, manager.fetch_last_wallpaper("/data", "DE")), Ok(()));
    assert!(world.files.contains_key("/data/2023-12-31_DE.json"));
    assert!(world.files.contains_key("/data/2023-12-31_DE.jpg"));
}

#[test]
fn events_that_answer_nothing_are_told_apart() {
    let manager = PictureManager::new();
    let (fetch, _) = manager.fetch_last_wallpaper("/data", "");
    assert!(!fetch.expects(&Event::Probed(true)));
    assert!(!fetch.expects(&Event::Written));
    assert!(!fetch.expects(&Event::DirectoryReady));
    assert!(!fetch.expects(&Event::Image(vec![])));
    assert!(fetch.expects(&Event::Failed(ArchiveError::Network)));
    assert!(fetch.expects(&Event::Metadata { body: vec![], record: None }));
    let (fetch, _) = fetch.advance(Event::Failed(ArchiveError::Network));
    assert!(!fetch.expects(&Event::Failed(ArchiveError::Network)));
}

#[test]
fn wallpaper_info_is_lenient_about_fields_and_strict_about_the_file() {
    assert_eq!(
        PictureManager::get_wallpaper_info(StoredMetadata::Absent),
        Err(ArchiveError::NotFound)
    );
    assert_eq!(
        PictureManager::get_wallpaper_info(StoredMetadata::Malformed),
        Err(ArchiveError::NotFound)
    );
    let bare = RemoteImageRecord { start_date: None, url: None, copyright: None, copyright_link: None };
    assert_eq!(
        PictureManager::get_wallpaper_info(StoredMetadata::Parsed(bare)),
        Ok((String::new(), String::new()))
    );
    let half = RemoteImageRecord {
        start_date: None,
        url: None,
        copyright: Some(String::from("text")),
        copyright_link: None,
    };
    assert_eq!(
        PictureManager::get_wallpaper_info(StoredMetadata::Parsed(half)),
        Ok((String::new(), String::new()))
    );
}

#[test]
fn a_single_offset_is_fetched_alone() {
    let mut world = fake(Date { year: 2024, month: 1, day: 11 });
    let manager = PictureManager::new();
    assert_eq!(drive(&mut world, manager.obtain_wallpaper("/data", 4, "")), Ok(()));
    assert_eq!(
        world.metadata_requests,
        vec![String::from("http://www.bing.com/HpImageArchive.aspx?format=js&n=1&idx=4&cc=")]
    );
    assert_eq!(
        world.writes,
        vec![String::from("/data/2024-01-06.json"), String::from("/data/2024-01-06.jpg")]
    );
    let mut world = fake(Date { year: 2024, month: 1, day: 11 });
    world.latest = Date { year: 1, month: 1, day: 1 };
    world.start_date = Some(String::from("20240101"));
    assert_eq!(drive(&mut world, manager.obtain_wallpaper("/data", i64::MAX, "")), Ok(()));
    assert_eq!(world.files.len(), 2);
}

#[test]
fn existence_is_asked_of_the_image_file() {
    let manager = PictureManager::new();
    match manager.check_wallpaper_exist("/data", "2024-01-01", "") {
        Action::Probe { path } => assert_eq!(path, "/data/2024-01-01.jpg"),
        _ => panic!("a probe was due"),
    }
    match manager.check_wallpaper_exist("/data", "2024-01-01", "FR") {
        Action::Probe { path } => assert_eq!(path, "/data/2024-01-01_FR.jpg"),
        _ => panic!("a probe was due"),
    }
}

#[test]
fn persist_writes_the_metadata_before_the_image() {
    let plan = persist("/data", "2024-01-01", "US", vec![1, 2], vec![3]);
    assert_eq!(plan.len(), 3);
    match &plan[0] {
        Action::CreateDirectory { path } => assert_eq!(path, "/data"),
        _ => panic!("the directory comes first"),
    }
    match &plan[1] {
        Action::WriteFile { path, contents } => {
            assert_eq!(path, "/data/2024-01-01_US.json");
            assert_eq!(contents, &vec![1, 2]);
        }
        _ => panic!("the metadata comes second"),
    }
    match &plan[2] {
        Action::WriteFile { path, contents } => {
            assert_eq!(path, "/data/2024-01-01_US.jpg");
            assert_eq!(contents, &vec![3]);
        }
        _ => panic!("the image comes last"),
    }
}
