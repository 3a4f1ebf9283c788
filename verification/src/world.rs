//! A model of the disk and of the remote service in which nothing fails,
//! and what a fetch does to them: the laws of caching.

use vstd::prelude::*;
use crate::date::{compact_date, Date};
use crate::engine::{begin, FetchState, Order, Signal, Stage, FIRST_OFFSET};
use crate::paths::{image_path, info_path, lemma_info_is_not_image};
use crate::remote::metadata_url_of;

verus! {

/// The disk, and a count of what was done to it and asked of the service.
pub struct World {
    /// The files on disk, by path.
    pub files: Map<Seq<char>, Seq<u8>>,
    /// How many files were written.
    pub writes: nat,
    /// How many images were downloaded.
    pub downloads: nat,
    /// How many times metadata was requested.
    pub requests: nat,
    /// How many times a file's presence was checked.
    pub probes: nat,
}

/// What the service answers to one request for metadata, with the image
/// that its record points to.
pub struct Reply {
    /// The metadata body.
    pub body: Seq<u8>,
    /// The `startdate` field read from the body.
    pub start_date: Seq<char>,
    /// The `url` field read from the body.
    pub url: Seq<char>,
    /// The image's bytes.
    pub image: Seq<u8>,
}

/// A remote service: its reply to the first request for metadata, to the
/// second, and so on.
pub type Remote = spec_fn(nat) -> Reply;

/// The day that `reply` reports.
pub open spec fn reply_day(reply: Reply) -> Date {
    compact_date(reply.start_date).unwrap()
}

/// Whether each of the next `count` replies of `remote` reports a calendar day.
pub open spec fn replies_are_dated(remote: Remote, world: World, count: int) -> bool {
    forall|k: nat| k < count ==> compact_date(#[trigger] remote(world.requests + k).start_date) is Some
}

/// Performs `order` in a world where nothing fails: the world afterwards,
/// and what the engine is told. `Finish` asks for nothing and has no answer.
pub open spec fn perform(world: World, remote: Remote, order: Order) -> (World, Signal)
    recommends
        !(order is Finish),
{
    match order {
        Order::RequestMetadata { url } => (
            World { requests: world.requests + 1, ..world },
            Signal::Metadata {
                body: remote(world.requests).body,
                parsed: true,
                start_date: Some(remote(world.requests).start_date),
                url: Some(remote(world.requests).url),
            },
        ),
        Order::Probe { path } => (
            World { probes: world.probes + 1, ..world },
            Signal::Probed(world.files.dom().contains(path)),
        ),
        Order::CreateDirectory { path } => (world, Signal::DirectoryReady),
        Order::WriteFile { path, contents } => (
            World { files: world.files.insert(path, contents), writes: world.writes + 1, ..world },
            Signal::Written,
        ),
        Order::RequestImage { url } => (
            World { downloads: world.downloads + 1, ..world },
            Signal::Image(remote((world.requests - 1) as nat).image),
        ),
        Order::Finish(_) => (world, Signal::Written),
    }
}

/// Runs a fetch for at most `steps` actions, or until it ends: the world
/// afterwards and the action that was reached.
pub open spec fn run(state: FetchState, order: Order, world: World, remote: Remote, steps: nat) -> (
    World,
    Order,
)
    decreases steps,
{
    if steps == 0 || order is Finish {
        (world, order)
    } else {
        let (after, signal) = perform(world, remote, order);
        let (next, then) = state.next(signal);
        run(next, then, after, remote, (steps - 1) as nat)
    }
}

/// Fetches the single day at `offset` in `world`: the world afterwards
/// and the action that ended the fetch.
pub open spec fn fetch_one(
    root: Seq<char>,
    offset: int,
    region: Seq<char>,
    world: World,
    remote: Remote,
) -> (World, Order) {
    let (state, order) = begin(root, region, offset, offset + 1);
    run(state, order, world, remote, 9)
}

/// Fetches the whole window in `world`: the world afterwards and the
/// action that ended the fetch.
pub open spec fn fetch_range(
    root: Seq<char>,
    region: Seq<char>,
    window: int,
    world: World,
    remote: Remote,
) -> (World, Order) {
    let (state, order) = begin(root, region, FIRST_OFFSET as int, window);
    run(state, order, world, remote, (8 * (window + 1) + 1) as nat)
}

/// Whether the entry for `day` and `region` is complete in `world`: its
/// image file is there.
pub open spec fn cached(world: World, root: Seq<char>, day: Date, region: Seq<char>) -> bool {
    world.files.dom().contains(image_path(root, day.day_key(), region))
}

/// Whether the metadata file of the entry for `day` and `region` is there.
pub open spec fn has_info(world: World, root: Seq<char>, day: Date, region: Seq<char>) -> bool {
    world.files.dom().contains(info_path(root, day.day_key(), region))
}

/// The world after one fetch of the day that `reply` reports: the
/// metadata was requested and both files were looked for; what was
/// missing of the two was written, the image after a download.
pub open spec fn with_entry(world: World, reply: Reply, root: Seq<char>, region: Seq<char>) -> World {
    let day = reply_day(reply);
    let info = info_path(root, day.day_key(), region);
    let image = image_path(root, day.day_key(), region);
    let had_info = has_info(world, root, day, region);
    let had_image = cached(world, root, day, region);
    let files = if had_info {
        world.files
    } else {
        world.files.insert(info, reply.body)
    };
    World {
        files: if had_image {
            files
        } else {
            files.insert(image, reply.image)
        },
        writes: world.writes + (if had_info { 0nat } else { 1nat }) + (if had_image {
            0nat
        } else {
            1nat
        }),
        downloads: world.downloads + (if had_image { 0nat } else { 1nat }),
        requests: world.requests + 1,
        probes: world.probes + 2,
    }
}

/// The world after `count` fetches, one after the other, each of the
/// day that the service reports next.
pub open spec fn with_entries(
    world: World,
    remote: Remote,
    root: Seq<char>,
    region: Seq<char>,
    count: nat,
) -> World
    decreases count,
{
    if count == 0 {
        world
    } else {
        with_entries(
            with_entry(world, remote(world.requests), root, region),
            remote,
            root,
            region,
            (count - 1) as nat,
        )
    }
}

/// A fetch of one day succeeds where nothing fails, and leaves the entry
/// complete: both files are there under the day that the service reported.
/// It requests the metadata once, writes the metadata only where it was
/// missing, and downloads and writes the image only where that was missing.
/// No other file is touched, and a file that was there is kept as it was.
pub proof fn lemma_fetch_completes_entry(
    root: Seq<char>,
    offset: int,
    region: Seq<char>,
    world: World,
    remote: Remote,
)
    requires
        replies_are_dated(remote, world, 1),
    ensures
        ({
            let (after, end) = fetch_one(root, offset, region, world, remote);
            let reply = remote(world.requests);
            let day = reply_day(reply);
            let info = info_path(root, day.day_key(), region);
            let image = image_path(root, day.day_key(), region);
            let had_info = has_info(world, root, day, region);
            let had_image = cached(world, root, day, region);
            &&& end == Order::Finish(Ok(()))
            &&& after == with_entry(world, reply, root, region)
            &&& after.files.dom() == world.files.dom().insert(info).insert(image)
            &&& cached(after, root, day, region)
            &&& has_info(after, root, day, region)
            &&& after.requests == world.requests + 1
            &&& after.downloads == world.downloads + (if had_image { 0nat } else { 1nat })
            &&& after.writes == world.writes + (if had_info { 0nat } else { 1nat }) + (if had_image {
                0nat
            } else {
                1nat
            })
            &&& after.files[info] == (if had_info { world.files[info] } else { reply.body })
            &&& after.files[image] == (if had_image { world.files[image] } else { reply.image })
            &&& forall|p: Seq<char>|
                p != info && p != image && world.files.dom().contains(p) ==> after.files[p]
                    == world.files[p]
        }),
{
    let (state, order) = begin(root, region, offset, offset + 1);
    assert(remote(world.requests + 0nat) == remote(world.requests));
    lemma_one_offset(state, world, remote, 9);
    let reply = remote(world.requests);
    let day = reply_day(reply);
    lemma_info_is_not_image(root, day.day_key(), region, root, day.day_key(), region);
    let after = with_entry(world, reply, root, region);
    let info = info_path(root, day.day_key(), region);
    let image = image_path(root, day.day_key(), region);
    assert(after.files.dom() =~= world.files.dom().insert(info).insert(image));
}

/// Fetching is idempotent: where the service reports the same day again,
/// a second fetch right after the first writes nothing and downloads
/// nothing, and leaves every file as it is. From an archive without the
/// entry, the two fetches together make exactly one metadata write and
/// one image download.
pub proof fn lemma_second_fetch_is_cache_hit(
    root: Seq<char>,
    offset: int,
    region: Seq<char>,
    world: World,
    remote: Remote,
)
    requires
        replies_are_dated(remote, world, 2),
        reply_day(remote(world.requests + 1)) == reply_day(remote(world.requests)),
    ensures
        ({
            let day = reply_day(remote(world.requests));
            let (first, _) = fetch_one(root, offset, region, world, remote);
            let (second, end) = fetch_one(root, offset, region, first, remote);
            &&& end == Order::Finish(Ok(()))
            &&& second.files == first.files
            &&& second.writes == first.writes
            &&& second.downloads == first.downloads
            &&& !has_info(world, root, day, region) && !cached(world, root, day, region)
                ==> second.writes == world.writes + 2 && second.downloads == world.downloads + 1
        }),
{
    assert(remote(world.requests + 0nat) == remote(world.requests));
    assert(remote(world.requests + 1nat) == remote(world.requests + 1));
    assert(replies_are_dated(remote, world, 1));
    lemma_fetch_completes_entry(root, offset, region, world, remote);
    let (first, _) = fetch_one(root, offset, region, world, remote);
    assert(replies_are_dated(remote, first, 1)) by {
        assert forall|k: nat| k < 1 implies compact_date(
            #[trigger] remote(first.requests + k).start_date,
        ) is Some by {
            assert(first.requests + k == world.requests + 1nat);
        }
    }
    lemma_fetch_completes_entry(root, offset, region, first, remote);
    let (second, _) = fetch_one(root, offset, region, first, remote);
    assert(second.files =~= first.files);
}

/// Completeness goes by the image: an entry whose metadata is on disk
/// without its image is not cached, and the next fetch of that day
/// downloads and writes the image alone, leaving the metadata file as it is.
pub proof fn lemma_image_alone_is_fetched_again(
    root: Seq<char>,
    offset: int,
    region: Seq<char>,
    world: World,
    remote: Remote,
)
    requires
        replies_are_dated(remote, world, 1),
        has_info(world, root, reply_day(remote(world.requests)), region),
        !cached(world, root, reply_day(remote(world.requests)), region),
    ensures
        ({
            let reply = remote(world.requests);
            let day = reply_day(reply);
            let (after, end) = fetch_one(root, offset, region, world, remote);
            let info = info_path(root, day.day_key(), region);
            &&& end == Order::Finish(Ok(()))
            &&& cached(after, root, day, region)
            &&& after.writes == world.writes + 1
            &&& after.downloads == world.downloads + 1
            &&& after.files[info] == world.files[info]
            &&& after.files[image_path(root, day.day_key(), region)] == reply.image
        }),
{
    lemma_fetch_completes_entry(root, offset, region, world, remote);
}

/// The state of a fetch that is about to request the metadata at
/// `offset`, with `day` and `url` left over from the offset before.
pub open spec fn requesting(
    root: Seq<char>,
    region: Seq<char>,
    offset: int,
    last: int,
    day: Date,
    url: Seq<char>,
) -> FetchState {
    FetchState {
        root,
        region,
        offset,
        last,
        stage: Stage::AwaitMetadata,
        day,
        url,
        body: Seq::empty(),
    }
}

/// One offset of a fetch, where nothing fails: within eight actions the
/// entry is there, and the fetch turns to the next offset or ends.
#[verifier::rlimit(40)]
proof fn lemma_one_offset(state: FetchState, world: World, remote: Remote, steps: nat)
    requires
        compact_date(remote(world.requests).start_date) is Some,
        state.stage == Stage::AwaitMetadata,
        state.body == Seq::<u8>::empty(),
        state.offset <= state.last,
        steps >= 9,
    ensures
        ({
            let order = Order::RequestMetadata { url: metadata_url_of(state.offset, state.region) };
            let reply = remote(world.requests);
            let after = with_entry(world, reply, state.root, state.region);
            if state.offset < state.last {
                exists|used: nat|
                    1 <= used <= 8 && run(state, order, world, remote, steps) == run(
                        requesting(
                            state.root,
                            state.region,
                            state.offset + 1,
                            state.last,
                            reply_day(reply),
                            reply.url,
                        ),
                        Order::RequestMetadata {
                            url: metadata_url_of(state.offset + 1, state.region),
                        },
                        after,
                        remote,
                        #[trigger] ((steps - used) as nat),
                    )
            } else {
                run(state, order, world, remote, steps) == (after, Order::Finish(Ok(())))
            }
        }),
{
    let reply = remote(world.requests);
    let day = reply_day(reply);
    lemma_info_is_not_image(
        state.root,
        day.day_key(),
        state.region,
        state.root,
        day.day_key(),
        state.region,
    );
    reveal_with_fuel(run, 10);
    let had_info = has_info(world, state.root, day, state.region);
    let had_image = cached(world, state.root, day, state.region);
    let order = Order::RequestMetadata { url: metadata_url_of(state.offset, state.region) };
    let after = with_entry(world, reply, state.root, state.region);
    let next = requesting(state.root, state.region, state.offset + 1, state.last, day, reply.url);
    let then = Order::RequestMetadata { url: metadata_url_of(state.offset + 1, state.region) };
    let used: nat = if had_info {
        if had_image {
            3
        } else {
            6
        }
    } else {
        if had_image {
            5
        } else {
            8
        }
    };
    if state.offset < state.last {
        assert(run(state, order, world, remote, steps) == run(
            next,
            then,
            after,
            remote,
            (steps - used) as nat,
        ));
    }
}

/// A fetch of the offsets from the current one to the last, where nothing fails.
proof fn lemma_offsets_from(state: FetchState, world: World, remote: Remote, steps: nat)
    requires
        replies_are_dated(remote, world, state.last - state.offset + 1),
        state.stage == Stage::AwaitMetadata,
        state.body == Seq::<u8>::empty(),
        state.offset <= state.last,
        steps >= 8 * (state.last - state.offset + 1) + 1,
    ensures
        run(
            state,
            Order::RequestMetadata { url: metadata_url_of(state.offset, state.region) },
            world,
            remote,
            steps,
        ) == (
            with_entries(
                world,
                remote,
                state.root,
                state.region,
                (state.last - state.offset + 1) as nat,
            ),
            Order::Finish(Ok(())),
        ),
    decreases state.last - state.offset,
{
    assert(remote(world.requests + 0nat) == remote(world.requests));
    lemma_one_offset(state, world, remote, steps);
    let reply = remote(world.requests);
    let once = with_entry(world, reply, state.root, state.region);
    reveal_with_fuel(with_entries, 2);
    if state.offset < state.last {
        let order = Order::RequestMetadata { url: metadata_url_of(state.offset, state.region) };
        let next = requesting(
            state.root,
            state.region,
            state.offset + 1,
            state.last,
            reply_day(reply),
            reply.url,
        );
        let then = Order::RequestMetadata { url: metadata_url_of(state.offset + 1, state.region) };
        let used = choose|used: nat|
            1 <= used <= 8 && run(state, order, world, remote, steps) == run(
                next,
                then,
                once,
                remote,
                #[trigger] ((steps - used) as nat),
            );
        assert(replies_are_dated(remote, once, next.last - next.offset + 1)) by {
            assert forall|k: nat| k < next.last - next.offset + 1 implies compact_date(
                #[trigger] remote(once.requests + k).start_date,
            ) is Some by {
                assert(once.requests + k == world.requests + (k + 1) as nat);
            }
        }
        lemma_offsets_from(next, once, remote, (steps - used) as nat);
    }
}

/// The range of a fetch: with a backfill window of `window`, where nothing
/// fails, the fetch goes through the `window + 1` offsets from -1 up to
/// `window - 1` and then ends well. For each of them the metadata is
/// requested once, and the entry of the day reported is completed as a
/// single fetch completes it. A window below zero asks for nothing.
pub proof fn lemma_range_fetches_each_offset(
    root: Seq<char>,
    region: Seq<char>,
    window: int,
    world: World,
    remote: Remote,
)
    requires
        replies_are_dated(remote, world, window + 1),
    ensures
        fetch_range(root, region, window, world, remote) == (
            with_entries(world, remote, root, region, (if window < 0 { 0 } else { window + 1 }) as nat),
            Order::Finish(Ok(())),
        ),
{
    reveal_with_fuel(run, 2);
    reveal_with_fuel(with_entries, 1);
    let (state, order) = begin(root, region, FIRST_OFFSET as int, window);
    if window >= 0 {
        assert(FIRST_OFFSET == -1);
        lemma_offsets_from(state, world, remote, (8 * (window + 1) + 1) as nat);
    }
}

/// Every fetch of a range requests its metadata and looks for both of
/// its files, whatever is cached: `count` fetches make `count` requests
/// and twice as many probes. They write at most two files and download at
/// most one image each, and no file that was there is lost or changed.
pub proof fn lemma_range_counts(
    world: World,
    remote: Remote,
    root: Seq<char>,
    region: Seq<char>,
    count: nat,
)
    ensures
        ({
            let after = with_entries(world, remote, root, region, count);
            &&& after.requests == world.requests + count
            &&& after.probes == world.probes + 2 * count
            &&& world.writes <= after.writes <= world.writes + 2 * count
            &&& world.downloads <= after.downloads <= world.downloads + count
            &&& forall|p: Seq<char>| #[trigger]
                world.files.dom().contains(p) ==> after.files.dom().contains(p) && after.files[p]
                    == world.files[p]
        }),
    decreases count,
{
    if count > 0 {
        let reply = remote(world.requests);
        let once = with_entry(world, reply, root, region);
        lemma_info_is_not_image(
            root,
            reply_day(reply).day_key(),
            region,
            root,
            reply_day(reply).day_key(),
            region,
        );
        lemma_range_counts(once, remote, root, region, (count - 1) as nat);
        let after = with_entries(world, remote, root, region, count);
        assert forall|p: Seq<char>| #[trigger] world.files.dom().contains(p) implies after.files.dom().contains(
            p,
        ) && after.files[p] == world.files[p] by {
            assert(once.files.dom().contains(p) && once.files[p] == world.files[p]);
        }
    }
}

/// Over a full cache a range writes nothing: where the entry of every day
/// that the service reports is on disk with both its files, `count`
/// fetches leave the files as they are, write nothing and download nothing.
pub proof fn lemma_range_over_full_cache(
    world: World,
    remote: Remote,
    root: Seq<char>,
    region: Seq<char>,
    count: nat,
)
    requires
        forall|k: nat|
            k < count ==> {
                let day = reply_day(#[trigger] remote(world.requests + k));
                has_info(world, root, day, region) && cached(world, root, day, region)
            },
    ensures
        ({
            let after = with_entries(world, remote, root, region, count);
            &&& after.files == world.files
            &&& after.writes == world.writes
            &&& after.downloads == world.downloads
        }),
    decreases count,
{
    if count > 0 {
        assert(remote(world.requests + 0nat) == remote(world.requests));
        let once = with_entry(world, remote(world.requests), root, region);
        assert(once.files == world.files);
        assert forall|k: nat| k < count - 1 implies ({
            let day = reply_day(#[trigger] remote(once.requests + k));
            has_info(once, root, day, region) && cached(once, root, day, region)
        }) by {
            assert(once.requests + k == world.requests + (k + 1) as nat);
        }
        lemma_range_over_full_cache(once, remote, root, region, (count - 1) as nat);
    }
}

} // verus!
