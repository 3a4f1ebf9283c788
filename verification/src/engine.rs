//! The fetch engine: which request, probe or write comes next while the
//! archive is filled, decided one step at a time. The caller performs
//! each action and hands back what happened; the engine itself touches
//! neither the network nor the disk, and keeps nothing between fetches.

use vstd::prelude::*;
use vstd::string::*;
use crate::date::{compact_date, parse_compact, Date};
use crate::error::ArchiveError;
use crate::paths::{build_image_path, build_info_path, image_path, info_path};
use crate::remote::{
    image_url_of,
    metadata_url,
    metadata_url_of,
    resolve_image_url,
    RemoteImageRecord,
};

verus! {

/// The number of most recent days that a range fetch asks for by default.
pub const DEFAULT_BACKFILL_WINDOW: i64 = 10;

/// The offset at which every fetch begins.
pub const FIRST_OFFSET: i64 = -1;

/// What the engine is waiting for.
#[derive(Clone, Copy, Debug, PartialEq, Eq, Structural)]
pub enum Stage {
    /// The metadata of the current offset.
    AwaitMetadata,
    /// Whether the metadata file is on disk.
    AwaitInfoProbe,
    /// The working directory, before the metadata is written.
    AwaitInfoDirectory,
    /// The metadata file being written.
    AwaitInfoWrite,
    /// Whether the image file is on disk.
    AwaitImageProbe,
    /// The working directory, before the image is downloaded.
    AwaitImageDirectory,
    /// The image's bytes.
    AwaitImage,
    /// The image file being written.
    AwaitImageWrite,
    /// Nothing: the fetch has ended.
    Finished,
}

/// What the caller is to do next.
#[derive(Debug)]
pub enum Action {
    /// Request the metadata at `url`.
    RequestMetadata { url: String },
    /// Tell whether a file is present at `path`.
    Probe { path: String },
    /// Make sure the directory `path` exists, with the directories above it.
    CreateDirectory { path: String },
    /// Put `contents` at `path`, replacing atomically what is there.
    WriteFile { path: String, contents: Vec<u8> },
    /// Download the image at `url`.
    RequestImage { url: String },
    /// Stop: the fetch has ended with this outcome.
    Finish(Result<(), ArchiveError>),
}

/// What happened when the caller did what it was told.
#[derive(Debug)]
pub enum Event {
    /// The metadata arrived: its bytes, and the first image record read
    /// from them (`None` where the bytes are not a response of the service).
    Metadata { body: Vec<u8>, record: Option<RemoteImageRecord> },
    /// The file is present, or is not.
    Probed(bool),
    /// The directory exists.
    DirectoryReady,
    /// The file is written.
    Written,
    /// The image arrived.
    Image(Vec<u8>),
    /// The action failed.
    Failed(ArchiveError),
}

/// A fetch in progress: one offset after the other, in ascending order,
/// up to the last one asked for.
#[derive(Debug)]
pub struct Fetch {
    root: String,
    region: String,
    offset: i64,
    last: i64,
    stage: Stage,
    day: Date,
    url: String,
    body: Vec<u8>,
}

/// A fetch in progress, as contracts see it.
pub struct FetchState {
    /// The working directory.
    pub root: Seq<char>,
    /// The region code; empty for the default region.
    pub region: Seq<char>,
    /// The offset being worked on.
    pub offset: int,
    /// The last offset that is fetched.
    pub last: int,
    /// What the engine is waiting for.
    pub stage: Stage,
    /// The day of the current record.
    pub day: Date,
    /// The `url` field of the current record.
    pub url: Seq<char>,
    /// The metadata bytes that are still to be written.
    pub body: Seq<u8>,
}

/// An action, as contracts see it.
pub enum Order {
    RequestMetadata { url: Seq<char> },
    Probe { path: Seq<char> },
    CreateDirectory { path: Seq<char> },
    WriteFile { path: Seq<char>, contents: Seq<u8> },
    RequestImage { url: Seq<char> },
    Finish(Result<(), ArchiveError>),
}

/// An event, as contracts see it. Of a record only the two fields that a
/// fetch reads are kept.
pub enum Signal {
    Metadata { body: Seq<u8>, parsed: bool, start_date: Option<Seq<char>>, url: Option<Seq<char>> },
    Probed(bool),
    DirectoryReady,
    Written,
    Image(Seq<u8>),
    Failed(ArchiveError),
}

/// The text of an optional string.
pub open spec fn text_of(s: Option<String>) -> Option<Seq<char>> {
    match s {
        Some(t) => Some(t@),
        None => None,
    }
}

impl View for Action {
    type V = Order;

    open spec fn view(&self) -> Order {
        match *self {
            Action::RequestMetadata { url } => Order::RequestMetadata { url: url@ },
            Action::Probe { path } => Order::Probe { path: path@ },
            Action::CreateDirectory { path } => Order::CreateDirectory { path: path@ },
            Action::WriteFile { path, contents } => Order::WriteFile {
                path: path@,
                contents: contents@,
            },
            Action::RequestImage { url } => Order::RequestImage { url: url@ },
            Action::Finish(outcome) => Order::Finish(outcome),
        }
    }
}

impl View for Event {
    type V = Signal;

    open spec fn view(&self) -> Signal {
        match *self {
            Event::Metadata { body, record } => match record {
                Some(r) => Signal::Metadata {
                    body: body@,
                    parsed: true,
                    start_date: text_of(r.start_date),
                    url: text_of(r.url),
                },
                None => Signal::Metadata { body: body@, parsed: false, start_date: None, url: None },
            },
            Event::Probed(present) => Signal::Probed(present),
            Event::DirectoryReady => Signal::DirectoryReady,
            Event::Written => Signal::Written,
            Event::Image(bytes) => Signal::Image(bytes@),
            Event::Failed(e) => Signal::Failed(e),
        }
    }
}

impl View for Fetch {
    type V = FetchState;

    closed spec fn view(&self) -> FetchState {
        FetchState {
            root: self.root@,
            region: self.region@,
            offset: self.offset as int,
            last: self.last as int,
            stage: self.stage,
            day: self.day,
            url: self.url@,
            body: self.body@,
        }
    }
}

impl FetchState {
    /// A state that a fetch can be in: its day is a calendar day, its
    /// bounds fit the machine, and while it runs an offset is left to work on.
    pub open spec fn wf(self) -> bool {
        &&& self.day.wf()
        &&& i64::MIN <= self.offset <= i64::MAX
        &&& i64::MIN <= self.last <= i64::MAX
        &&& self.stage != Stage::Finished ==> self.offset <= self.last
    }

    /// Whether `signal` answers the action that this state waits on. A
    /// failure answers any action; nothing answers a fetch that has ended.
    pub open spec fn expects(self, signal: Signal) -> bool {
        match (self.stage, signal) {
            (Stage::Finished, _) => false,
            (_, Signal::Failed(_)) => true,
            (Stage::AwaitMetadata, Signal::Metadata { .. }) => true,
            (Stage::AwaitInfoProbe, Signal::Probed(_)) => true,
            (Stage::AwaitInfoDirectory, Signal::DirectoryReady) => true,
            (Stage::AwaitInfoWrite, Signal::Written) => true,
            (Stage::AwaitImageProbe, Signal::Probed(_)) => true,
            (Stage::AwaitImageDirectory, Signal::DirectoryReady) => true,
            (Stage::AwaitImage, Signal::Image(_)) => true,
            (Stage::AwaitImageWrite, Signal::Written) => true,
            _ => false,
        }
    }

    /// The path of the metadata file of the current record.
    pub open spec fn info_path(self) -> Seq<char> {
        info_path(self.root, self.day.day_key(), self.region)
    }

    /// The path of the image file of the current record.
    pub open spec fn image_path(self) -> Seq<char> {
        image_path(self.root, self.day.day_key(), self.region)
    }

    /// The state with another stage.
    pub open spec fn at(self, stage: Stage) -> FetchState {
        FetchState { stage, ..self }
    }

    /// The fetch ends with `outcome`.
    pub open spec fn finish(self, outcome: Result<(), ArchiveError>) -> (FetchState, Order) {
        (FetchState { stage: Stage::Finished, body: Seq::empty(), ..self }, Order::Finish(outcome))
    }

    /// The current offset is done: on to the next one, or to the end.
    pub open spec fn proceed(self) -> (FetchState, Order) {
        if self.offset < self.last {
            (
                FetchState {
                    stage: Stage::AwaitMetadata,
                    offset: self.offset + 1,
                    body: Seq::empty(),
                    ..self
                },
                Order::RequestMetadata { url: metadata_url_of(self.offset + 1, self.region) },
            )
        } else {
            self.finish(Ok(()))
        }
    }

    /// The metadata of the current offset arrived. Both fields that a
    /// fetch reads must be there, and the start date must name a day.
    pub open spec fn receive(
        self,
        body: Seq<u8>,
        parsed: bool,
        start_date: Option<Seq<char>>,
        url: Option<Seq<char>>,
    ) -> (FetchState, Order) {
        if !parsed || start_date is None || url is None {
            self.finish(Err(ArchiveError::JsonParse))
        } else {
            match compact_date(start_date.unwrap()) {
                None => self.finish(Err(ArchiveError::DateParse)),
                Some(day) => {
                    let next = FetchState {
                        stage: Stage::AwaitInfoProbe,
                        day,
                        url: url.unwrap(),
                        body,
                        ..self
                    };
                    (next, Order::Probe { path: next.info_path() })
                },
            }
        }
    }

    /// The state after `signal`, and the action that the caller is to
    /// perform next. It is meant for a signal that the state expects.
    pub open spec fn next(self, signal: Signal) -> (FetchState, Order)
        recommends
            self.expects(signal),
    {
        match (self.stage, signal) {
            (_, Signal::Failed(e)) => self.finish(Err(e)),
            (Stage::AwaitMetadata, Signal::Metadata { body, parsed, start_date, url }) => {
                self.receive(body, parsed, start_date, url)
            },
            (Stage::AwaitInfoProbe, Signal::Probed(present)) => {
                if present {
                    (
                        FetchState { stage: Stage::AwaitImageProbe, body: Seq::empty(), ..self },
                        Order::Probe { path: self.image_path() },
                    )
                } else {
                    (self.at(Stage::AwaitInfoDirectory), Order::CreateDirectory { path: self.root })
                }
            },
            (Stage::AwaitInfoDirectory, Signal::DirectoryReady) => (
                FetchState { stage: Stage::AwaitInfoWrite, body: Seq::empty(), ..self },
                Order::WriteFile { path: self.info_path(), contents: self.body },
            ),
            (Stage::AwaitInfoWrite, Signal::Written) => (
                self.at(Stage::AwaitImageProbe),
                Order::Probe { path: self.image_path() },
            ),
            (Stage::AwaitImageProbe, Signal::Probed(present)) => {
                if present {
                    self.proceed()
                } else {
                    (
                        self.at(Stage::AwaitImageDirectory),
                        Order::CreateDirectory { path: self.root },
                    )
                }
            },
            (Stage::AwaitImageDirectory, Signal::DirectoryReady) => (
                self.at(Stage::AwaitImage),
                Order::RequestImage { url: image_url_of(self.url) },
            ),
            (Stage::AwaitImage, Signal::Image(bytes)) => (
                self.at(Stage::AwaitImageWrite),
                Order::WriteFile { path: self.image_path(), contents: bytes },
            ),
            (Stage::AwaitImageWrite, Signal::Written) => self.proceed(),
            _ => (self, Order::Finish(Ok(()))),
        }
    }
}

/// The state and the first action of a fetch of the offsets from `first`
/// up to, and without, `end`: the request for the first offset, or the end
/// at once where there is none.
pub open spec fn begin(root: Seq<char>, region: Seq<char>, first: int, end: int) -> (
    FetchState,
    Order,
) {
    let idle = FetchState {
        root,
        region,
        offset: first,
        last: first,
        stage: Stage::Finished,
        day: Date { year: 1, month: 1, day: 1 },
        url: Seq::empty(),
        body: Seq::empty(),
    };
    if first < end {
        (
            FetchState { stage: Stage::AwaitMetadata, last: end - 1, ..idle },
            Order::RequestMetadata { url: metadata_url_of(first, region) },
        )
    } else {
        (idle, Order::Finish(Ok(())))
    }
}

/// A failure ends the fetch at once, whatever it was waiting for, and is
/// reported as it came: no further offset is asked for.
pub proof fn lemma_failure_ends_fetch(state: FetchState, error: ArchiveError)
    ensures
        state.next(Signal::Failed(error)).1 == Order::Finish(Err::<(), ArchiveError>(error)),
        state.next(Signal::Failed(error)).0.stage == Stage::Finished,
        state.next(Signal::Failed(error)).0.offset == state.offset,
{
}

/// A step keeps a fetch within its bounds: working directory, region and
/// last offset stay as they are, and the offset stays or goes up by one,
/// never past the last. The fetch is over exactly when the action is `Finish`.
pub proof fn lemma_step_stays_in_range(state: FetchState, signal: Signal)
    requires
        state.wf(),
        state.expects(signal),
    ensures
        ({
            let (next, order) = state.next(signal);
            &&& next.wf()
            &&& next.root == state.root
            &&& next.region == state.region
            &&& next.last == state.last
            &&& state.offset <= next.offset <= state.offset + 1
            &&& next.offset <= state.last
            &&& (next.stage == Stage::Finished) == (order is Finish)
            &&& next.offset == state.offset + 1 ==> order == (Order::RequestMetadata {
                url: metadata_url_of(next.offset, state.region),
            })
        }),
{
}

/// A file that is found on disk is left alone: what follows a probe that
/// found it is never a write, a directory or a download. After the
/// metadata file was found, the image file is looked for.
pub proof fn lemma_present_file_is_kept(state: FetchState, signal: Signal)
    requires
        state.wf(),
        state.expects(signal),
        signal == Signal::Probed(true),
    ensures
        !(state.next(signal).1 is WriteFile),
        !(state.next(signal).1 is CreateDirectory),
        !(state.next(signal).1 is RequestImage),
        state.stage == Stage::AwaitInfoProbe ==> state.next(signal).1 == (Order::Probe {
            path: state.image_path(),
        }),
{
}

/// Writes are gated by what is on disk. The working directory is made
/// only after a probe found a file missing, never for a check alone; a
/// file is written only once the directory is there, the metadata as it
/// arrived and the image as it was downloaded; and an image is downloaded
/// only when its file is missing, from the record's resolved address.
pub proof fn lemma_orders_are_gated(state: FetchState, signal: Signal)
    requires
        state.wf(),
        state.expects(signal),
    ensures
        ({
            let order = state.next(signal).1;
            &&& order is CreateDirectory ==> signal == Signal::Probed(false) && order
                == (Order::CreateDirectory { path: state.root })
            &&& order is RequestImage ==> state.stage == Stage::AwaitImageDirectory && order
                == (Order::RequestImage { url: image_url_of(state.url) })
            &&& order is WriteFile ==> {
                ||| state.stage == Stage::AwaitInfoDirectory && order == (Order::WriteFile {
                    path: state.info_path(),
                    contents: state.body,
                })
                ||| state.stage == Stage::AwaitImage && signal is Image && order
                    == (Order::WriteFile {
                    path: state.image_path(),
                    contents: signal->Image_0,
                })
            }
        }),
{
}

/// What a store does to put an entry on disk: make sure of the working
/// directory, write the metadata, then write the image. The image comes
/// last, so that an entry cut short is one without an image.
pub open spec fn persist_orders(
    root: Seq<char>,
    day_key: Seq<char>,
    region: Seq<char>,
    metadata: Seq<u8>,
    image: Seq<u8>,
) -> Seq<Order> {
    seq![
        Order::CreateDirectory { path: root },
        Order::WriteFile { path: info_path(root, day_key, region), contents: metadata },
        Order::WriteFile { path: image_path(root, day_key, region), contents: image },
    ]
}

/// The actions that put the entry for `day_key` and `region` on disk, in
/// the order in which they are to be performed.
pub fn persist(root: &str, day_key: &str, region: &str, metadata: Vec<u8>, image: Vec<u8>) -> (plan:
    Vec<Action>)
    ensures
        plan@.len() == 3,
        forall|i: int|
            0 <= i < 3 ==> (#[trigger] plan@[i])@ == persist_orders(
                root@,
                day_key@,
                region@,
                metadata@,
                image@,
            )[i],
{
    let mut plan: Vec<Action> = Vec::new();
    plan.push(Action::CreateDirectory { path: String::from_str(root) });
    plan.push(
        Action::WriteFile { path: build_info_path(root, day_key, region), contents: metadata },
    );
    plan.push(Action::WriteFile { path: build_image_path(root, day_key, region), contents: image });
    plan
}

/// What is on disk of the metadata of one entry, as the caller read it.
#[derive(Debug)]
pub enum StoredMetadata {
    /// No metadata file is there.
    Absent,
    /// The file is there, but its content is not a response of the service.
    Malformed,
    /// The first image record read from the file.
    Parsed(RemoteImageRecord),
}

/// What `get_wallpaper_info` returns for `stored`, as texts: the copyright
/// text and its link where the record holds both, an empty pair where it
/// lacks one, and no answer without a readable metadata file.
pub open spec fn wallpaper_info_of(stored: StoredMetadata) -> Result<
    (Seq<char>, Seq<char>),
    ArchiveError,
> {
    match stored {
        StoredMetadata::Parsed(record) => match (record.copyright, record.copyright_link) {
            (Some(text), Some(link)) => Ok((text@, link@)),
            _ => Ok((Seq::empty(), Seq::empty())),
        },
        _ => Err(ArchiveError::NotFound),
    }
}

/// The engine's configuration. It holds no other state: what is cached
/// lives on disk alone.
#[derive(Clone, Copy, Debug, PartialEq, Eq, Structural)]
pub struct PictureManager {
    /// The backfill window: a range fetch asks for the offsets from -1 up
    /// to, and without, this number.
    pub past_wallpaper_range: i64,
}

impl PictureManager {
    /// An engine with the default backfill window of ten days.
    pub fn new() -> (manager: PictureManager)
        ensures
            manager.past_wallpaper_range == DEFAULT_BACKFILL_WINDOW,
    {
        PictureManager { past_wallpaper_range: DEFAULT_BACKFILL_WINDOW }
    }

    /// Begins a fetch of the whole window: the offsets -1, 0, 1 and so on,
    /// in this order, up to and without the backfill window.
    pub fn fetch_wallpapers(&self, working_directory: &str, at_region: &str) -> (r: (Fetch, Action))
        ensures
            (r.0@, r.1@) == begin(
                working_directory@,
                at_region@,
                FIRST_OFFSET as int,
                self.past_wallpaper_range as int,
            ),
            r.0@.wf(),
    {
        if FIRST_OFFSET < self.past_wallpaper_range {
            Fetch::start(working_directory, at_region, FIRST_OFFSET, self.past_wallpaper_range - 1)
        } else {
            Fetch::idle(working_directory, at_region, FIRST_OFFSET)
        }
    }

    /// Begins a fetch of the single offset -1.
    pub fn fetch_last_wallpaper(&self, working_directory: &str, at_region: &str) -> (r: (
        Fetch,
        Action,
    ))
        ensures
            (r.0@, r.1@) == begin(working_directory@, at_region@, FIRST_OFFSET as int, 0),
            r.0@.wf(),
    {
        Fetch::start(working_directory, at_region, FIRST_OFFSET, FIRST_OFFSET)
    }

    /// Begins a fetch of the single day at `at_index`: its metadata is
    /// requested, and whichever of its two files is missing is written.
    pub fn obtain_wallpaper(&self, working_directory: &str, at_index: i64, at_region: &str) -> (r: (
        Fetch,
        Action,
    ))
        ensures
            (r.0@, r.1@) == begin(working_directory@, at_region@, at_index as int, at_index + 1),
            r.0@.wf(),
    {
        Fetch::start(working_directory, at_region, at_index, at_index)
    }

    /// What to ask of the disk to learn whether the entry for `on_date` is
    /// complete: whether its image file is there. The metadata file does
    /// not count.
    pub fn check_wallpaper_exist(
        &self,
        working_directory: &str,
        on_date: &str,
        at_region: &str,
    ) -> (probe: Action)
        ensures
            probe@ == (Order::Probe { path: image_path(working_directory@, on_date@, at_region@) }),
    {
        Action::Probe { path: build_image_path(working_directory, on_date, at_region) }
    }

    /// The copyright text and the copyright link of a cached entry, from
    /// what the caller read at the entry's metadata path.
    pub fn get_wallpaper_info(stored: StoredMetadata) -> (r: Result<(String, String), ArchiveError>)
        ensures
            match wallpaper_info_of(stored) {
                Ok(pair) => r matches Ok(info) && info.0@ == pair.0 && info.1@ == pair.1,
                Err(e) => r matches Err(f) && f == e,
            },
    {
        match stored {
            StoredMetadata::Parsed(record) => match (record.copyright, record.copyright_link) {
                (Some(text), Some(link)) => Ok((text, link)),
                _ => Ok((String::new(), String::new())),
            },
            _ => Err(ArchiveError::NotFound),
        }
    }
}

impl Fetch {
    /// A fetch that has nothing to do.
    fn idle(root: &str, region: &str, first: i64) -> (r: (Fetch, Action))
        ensures
            (r.0@, r.1@) == begin(root@, region@, first as int, first as int),
            r.0@.wf(),
    {
        (
            Fetch {
                root: String::from_str(root),
                region: String::from_str(region),
                offset: first,
                last: first,
                stage: Stage::Finished,
                day: Date { year: 1, month: 1, day: 1 },
                url: String::new(),
                body: Vec::new(),
            },
            Action::Finish(Ok(())),
        )
    }

    /// The state and the first action of a fetch of the offsets from
    /// `first` to `last`.
    fn start(root: &str, region: &str, first: i64, last: i64) -> (r: (Fetch, Action))
        requires
            first <= last,
        ensures
            (r.0@, r.1@) == begin(root@, region@, first as int, last + 1),
            r.0@.wf(),
    {
        let url = metadata_url(first, region);
        (
            Fetch {
                root: String::from_str(root),
                region: String::from_str(region),
                offset: first,
                last,
                stage: Stage::AwaitMetadata,
                day: Date { year: 1, month: 1, day: 1 },
                url: String::new(),
                body: Vec::new(),
            },
            Action::RequestMetadata { url },
        )
    }

    /// Tells whether the fetch has ended.
    pub fn is_finished(&self) -> (r: bool)
        ensures
            r == (self@.stage == Stage::Finished),
    {
        self.stage == Stage::Finished
    }

    /// The offset that the fetch is working on.
    pub fn offset(&self) -> (r: i64)
        ensures
            r == self@.offset,
    {
        self.offset
    }

    /// Tells whether `event` answers the action that the fetch waits on.
    pub fn expects(&self, event: &Event) -> (r: bool)
        ensures
            r == self@.expects(event@),
    {
        match (self.stage, event) {
            (Stage::Finished, _) => false,
            (_, Event::Failed(_)) => true,
            (Stage::AwaitMetadata, Event::Metadata { .. }) => true,
            (Stage::AwaitInfoProbe, Event::Probed(_)) => true,
            (Stage::AwaitInfoDirectory, Event::DirectoryReady) => true,
            (Stage::AwaitInfoWrite, Event::Written) => true,
            (Stage::AwaitImageProbe, Event::Probed(_)) => true,
            (Stage::AwaitImageDirectory, Event::DirectoryReady) => true,
            (Stage::AwaitImage, Event::Image(_)) => true,
            (Stage::AwaitImageWrite, Event::Written) => true,
            _ => false,
        }
    }

    /// Ends the fetch with `outcome`.
    fn finish(self, outcome: Result<(), ArchiveError>) -> (r: (Fetch, Action))
        ensures
            (r.0@, r.1@) == self@.finish(outcome),
    {
        (Fetch { stage: Stage::Finished, body: Vec::new(), ..self }, Action::Finish(outcome))
    }

    /// Goes on to the next offset, or ends the fetch after the last one.
    fn proceed(self) -> (r: (Fetch, Action))
        requires
            self@.wf(),
            self@.stage != Stage::Finished,
        ensures
            (r.0@, r.1@) == self@.proceed(),
    {
        if self.offset < self.last {
            let url = metadata_url(self.offset + 1, self.region.as_str());
            (
                Fetch {
                    stage: Stage::AwaitMetadata,
                    offset: self.offset + 1,
                    body: Vec::new(),
                    ..self
                },
                Action::RequestMetadata { url },
            )
        } else {
            self.finish(Ok(()))
        }
    }

    /// Takes in the metadata of the current offset.
    fn receive(self, body: Vec<u8>, record: Option<RemoteImageRecord>) -> (r: (Fetch, Action))
        requires
            self@.wf(),
            self@.stage == Stage::AwaitMetadata,
        ensures
            (r.0@, r.1@) == self@.next((Event::Metadata { body, record })@),
            r.0@.wf(),
    {
        match record {
            None => self.finish(Err(ArchiveError::JsonParse)),
            Some(fields) => match (fields.start_date, fields.url) {
                (Some(start_date), Some(url)) => match parse_compact(start_date.as_str()) {
                    Err(e) => self.finish(Err(e)),
                    Ok(day) => {
                        let key = day.to_day_key();
                        let path = build_info_path(
                            self.root.as_str(),
                            key.as_str(),
                            self.region.as_str(),
                        );
                        (
                            Fetch { stage: Stage::AwaitInfoProbe, day, url, body, ..self },
                            Action::Probe { path },
                        )
                    },
                },
                _ => self.finish(Err(ArchiveError::JsonParse)),
            },
        }
    }

    /// The image path of the current record.
    fn image_file(&self) -> (path: String)
        requires
            self@.wf(),
        ensures
            path@ == self@.image_path(),
    {
        let key = self.day.to_day_key();
        build_image_path(self.root.as_str(), key.as_str(), self.region.as_str())
    }

    /// Takes in what happened to the action last handed out, and hands out
    /// the next one. The fetch ends with the first failure, which it
    /// reports unchanged; what was written before stays.
    pub fn advance(self, event: Event) -> (r: (Fetch, Action))
        requires
            self@.wf(),
            self@.expects(event@),
        ensures
            (r.0@, r.1@) == self@.next(event@),
            r.0@.wf(),
    {
        match event {
            Event::Failed(e) => self.finish(Err(e)),
            Event::Metadata { body, record } => self.receive(body, record),
            Event::Probed(present) => {
                let info = self.stage == Stage::AwaitInfoProbe;
                if info {
                    if present {
                        let path = self.image_file();
                        (
                            Fetch { stage: Stage::AwaitImageProbe, body: Vec::new(), ..self },
                            Action::Probe { path },
                        )
                    } else {
                        let path = self.root.clone();
                        (
                            Fetch { stage: Stage::AwaitInfoDirectory, ..self },
                            Action::CreateDirectory { path },
                        )
                    }
                } else if present {
                    self.proceed()
                } else {
                    let path = self.root.clone();
                    (
                        Fetch { stage: Stage::AwaitImageDirectory, ..self },
                        Action::CreateDirectory { path },
                    )
                }
            },
            Event::DirectoryReady => {
                if self.stage == Stage::AwaitInfoDirectory {
                    let key = self.day.to_day_key();
                    let path = build_info_path(
                        self.root.as_str(),
                        key.as_str(),
                        self.region.as_str(),
                    );
                    let Fetch { root, region, offset, last, stage: _, day, url, body } = self;
                    (
                        Fetch {
                            root,
                            region,
                            offset,
                            last,
                            stage: Stage::AwaitInfoWrite,
                            day,
                            url,
                            body: Vec::new(),
                        },
                        Action::WriteFile { path, contents: body },
                    )
                } else {
                    let url = resolve_image_url(self.url.as_str());
                    (Fetch { stage: Stage::AwaitImage, ..self }, Action::RequestImage { url })
                }
            },
            Event::Written => {
                if self.stage == Stage::AwaitInfoWrite {
                    let path = self.image_file();
                    (Fetch { stage: Stage::AwaitImageProbe, ..self }, Action::Probe { path })
                } else {
                    self.proceed()
                }
            },
            Event::Image(bytes) => {
                let path = self.image_file();
                (
                    Fetch { stage: Stage::AwaitImageWrite, ..self },
                    Action::WriteFile { path, contents: bytes },
                )
            },
        }
    }
}

} // verus!
