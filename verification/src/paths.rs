//! Where the two files of an archive entry lie under the working directory.

use vstd::prelude::*;
use vstd::string::*;

verus! {

/// What a region adds to a file's name: nothing for the default region,
/// else an underscore and the region's code.
pub open spec fn region_suffix(region: Seq<char>) -> Seq<char> {
    if region.len() == 0 {
        region
    } else {
        "_"@ + region
    }
}

/// The path of an entry's file without its extension.
pub open spec fn entry_stem(root: Seq<char>, day_key: Seq<char>, region: Seq<char>) -> Seq<char> {
    root + "/"@ + day_key + region_suffix(region)
}

/// The path of the metadata file of the entry for `day_key` and `region`.
pub open spec fn info_path(root: Seq<char>, day_key: Seq<char>, region: Seq<char>) -> Seq<char> {
    entry_stem(root, day_key, region) + ".json"@
}

/// The path of the image file of the entry for `day_key` and `region`.
pub open spec fn image_path(root: Seq<char>, day_key: Seq<char>, region: Seq<char>) -> Seq<char> {
    entry_stem(root, day_key, region) + ".jpg"@
}

/// Builds the path of an entry's file without its extension.
fn build_stem(working_directory: &str, on_date: &str, at_region: &str) -> (path: String)
    ensures
        path@ == entry_stem(working_directory@, on_date@, at_region@),
{
    let mut path = String::from_str(working_directory);
    path.append("/");
    path.append(on_date);
    if at_region.unicode_len() != 0 {
        path.append("_");
        path.append(at_region);
        assert(path@ =~= entry_stem(working_directory@, on_date@, at_region@));
    } else {
        assert(path@ =~= entry_stem(working_directory@, on_date@, at_region@));
    }
    path
}

/// The path of the metadata file: `{root}/{day}.json` for the default
/// region, `{root}/{day}_{region}.json` for any other.
pub fn build_info_path(working_directory: &str, on_date: &str, at_region: &str) -> (path: String)
    ensures
        path@ == info_path(working_directory@, on_date@, at_region@),
{
    let mut path = build_stem(working_directory, on_date, at_region);
    path.append(".json");
    path
}

/// The path of the image file: `{root}/{day}.jpg` for the default region,
/// `{root}/{day}_{region}.jpg` for any other.
pub fn build_image_path(working_directory: &str, on_date: &str, at_region: &str) -> (path: String)
    ensures
        path@ == image_path(working_directory@, on_date@, at_region@),
{
    let mut path = build_stem(working_directory, on_date, at_region);
    path.append(".jpg");
    path
}

/// Two regions never share a storage slot: for one working directory and
/// one day, different regions have different metadata paths and different
/// image paths. The default region, which adds no suffix, is one of them.
pub proof fn lemma_regions_do_not_collide(
    root: Seq<char>,
    day_key: Seq<char>,
    first: Seq<char>,
    second: Seq<char>,
)
    requires
        first != second,
    ensures
        info_path(root, day_key, first) != info_path(root, day_key, second),
        image_path(root, day_key, first) != image_path(root, day_key, second),
{
    reveal_strlit("_");
    let head = root + "/"@ + day_key;
    let a = region_suffix(first);
    let b = region_suffix(second);
    assert(a != b) by {
        if a == b {
            if first.len() > 0 && second.len() > 0 {
                assert(first =~= a.subrange(1, a.len() as int));
                assert(second =~= b.subrange(1, b.len() as int));
            } else {
                assert(first.len() == 0 && second.len() == 0);
                assert(first =~= second);
            }
        }
    }
    lemma_middle_decides(head, a, b, ".json"@);
    lemma_middle_decides(head, a, b, ".jpg"@);
}

/// Texts that differ only in their middle part differ.
proof fn lemma_middle_decides(head: Seq<char>, a: Seq<char>, b: Seq<char>, tail: Seq<char>)
    requires
        a != b,
    ensures
        head + a + tail != head + b + tail,
{
    let x = head + a + tail;
    let y = head + b + tail;
    if x == y {
        assert(a.len() == b.len()) by {
            assert(x.len() == head.len() + a.len() + tail.len());
            assert(y.len() == head.len() + b.len() + tail.len());
        }
        assert(a =~= x.subrange(head.len() as int, (head.len() + a.len()) as int));
        assert(b =~= y.subrange(head.len() as int, (head.len() + b.len()) as int));
    }
}

/// The metadata file and the image file of an entry are two files, also
/// across entries: no metadata path is an image path.
pub proof fn lemma_info_is_not_image(
    root: Seq<char>,
    day_key: Seq<char>,
    region: Seq<char>,
    other_root: Seq<char>,
    other_day_key: Seq<char>,
    other_region: Seq<char>,
)
    ensures
        info_path(root, day_key, region) != image_path(other_root, other_day_key, other_region),
{
    reveal_strlit(".json");
    reveal_strlit(".jpg");
    let x = info_path(root, day_key, region);
    let y = image_path(other_root, other_day_key, other_region);
    assert(x[x.len() - 1] == 'n');
    assert(y[y.len() - 1] == 'g');
}

} // verus!
