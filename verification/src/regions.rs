//! The regions that the remote service publishes for, by name and code.

use vstd::prelude::*;
use vstd::string::*;
use crate::text::starts_with;

verus! {

/// The number of regions.
pub const REGION_COUNT: usize = 36;

/// The name and the code of the region at `index`.
pub open spec fn region_entry(index: int) -> (Seq<char>, Seq<char>) {
    if index <= 0 {
        ("Argentina"@, "AR"@)
        } else if index == 1 {
            ("Australia"@, "AU"@)
        } else if index == 2 {
            ("Austria"@, "AT"@)
        } else if index == 3 {
            ("Belgium"@, "BE"@)
        } else if index == 4 {
            ("Brazil"@, "BR"@)
        } else if index == 5 {
            ("Canada"@, "CA"@)
        } else if index == 6 {
            ("Chile"@, "CL"@)
        } else if index == 7 {
            ("Denmark"@, "DK"@)
        } else if index == 8 {
            ("Finland"@, "FI"@)
        } else if index == 9 {
            ("France"@, "FR"@)
        } else if index == 10 {
            ("Germany"@, "DE"@)
        } else if index == 11 {
            ("Hong Kong SAR"@, "HK"@)
        } else if index == 12 {
            ("India"@, "IN"@)
        } else if index == 13 {
            ("Indonesia"@, "ID"@)
        } else if index == 14 {
            ("Italy"@, "IT"@)
        } else if index == 15 {
            ("Japan"@, "JP"@)
        } else if index == 16 {
            ("Korea"@, "KR"@)
        } else if index == 17 {
            ("Malaysia"@, "MY"@)
        } else if index == 18 {
            ("Mexico"@, "MX"@)
        } else if index == 19 {
            ("Netherlands"@, "NL"@)
        } else if index == 20 {
            ("New Zealand"@, "NZ"@)
        } else if index == 21 {
            ("Norway"@, "NO"@)
        } else if index == 22 {
            ("China"@, "CN"@)
        } else if index == 23 {
            ("Poland"@, "PL"@)
        } else if index == 24 {
            ("Portugal"@, "PT"@)
        } else if index == 25 {
            ("Philippines"@, "PH"@)
        } else if index == 26 {
            ("Russia"@, "RU"@)
        } else if index == 27 {
            ("Saudi Arabia"@, "SA"@)
        } else if index == 28 {
            ("South Africa"@, "ZA"@)
        } else if index == 29 {
            ("Spain"@, "ES"@)
        } else if index == 30 {
            ("Sweden"@, "SE"@)
        } else if index == 31 {
            ("Switzerland"@, "CH"@)
        } else if index == 32 {
            ("Taiwan"@, "TW"@)
        } else if index == 33 {
            ("Turkey"@, "TR"@)
        } else if index == 34 {
            ("United Kingdom"@, "GB"@)
    } else {
        ("United States"@, "US"@)
    }
}

/// Whether the region at `index` is called `name`.
pub open spec fn is_region_named(index: int, name: Seq<char>) -> bool {
    0 <= index < REGION_COUNT && region_entry(index).0 == name
}

/// The name and the code of the region at `index`.
pub fn region_at(index: usize) -> (entry: (&'static str, &'static str))
    requires
        index < REGION_COUNT,
    ensures
        entry.0@ == region_entry(index as int).0,
        entry.1@ == region_entry(index as int).1,
{
    if index == 0 {
        ("Argentina", "AR")
        } else if index == 1 {
            ("Australia", "AU")
        } else if index == 2 {
            ("Austria", "AT")
        } else if index == 3 {
            ("Belgium", "BE")
        } else if index == 4 {
            ("Brazil", "BR")
        } else if index == 5 {
            ("Canada", "CA")
        } else if index == 6 {
            ("Chile", "CL")
        } else if index == 7 {
            ("Denmark", "DK")
        } else if index == 8 {
            ("Finland", "FI")
        } else if index == 9 {
            ("France", "FR")
        } else if index == 10 {
            ("Germany", "DE")
        } else if index == 11 {
            ("Hong Kong SAR", "HK")
        } else if index == 12 {
            ("India", "IN")
        } else if index == 13 {
            ("Indonesia", "ID")
        } else if index == 14 {
            ("Italy", "IT")
        } else if index == 15 {
            ("Japan", "JP")
        } else if index == 16 {
            ("Korea", "KR")
        } else if index == 17 {
            ("Malaysia", "MY")
        } else if index == 18 {
            ("Mexico", "MX")
        } else if index == 19 {
            ("Netherlands", "NL")
        } else if index == 20 {
            ("New Zealand", "NZ")
        } else if index == 21 {
            ("Norway", "NO")
        } else if index == 22 {
            ("China", "CN")
        } else if index == 23 {
            ("Poland", "PL")
        } else if index == 24 {
            ("Portugal", "PT")
        } else if index == 25 {
            ("Philippines", "PH")
        } else if index == 26 {
            ("Russia", "RU")
        } else if index == 27 {
            ("Saudi Arabia", "SA")
        } else if index == 28 {
            ("South Africa", "ZA")
        } else if index == 29 {
            ("Spain", "ES")
        } else if index == 30 {
            ("Sweden", "SE")
        } else if index == 31 {
            ("Switzerland", "CH")
        } else if index == 32 {
            ("Taiwan", "TW")
        } else if index == 33 {
            ("Turkey", "TR")
        } else if index == 34 {
            ("United Kingdom", "GB")
    } else {
        ("United States", "US")
    }
}

/// Tells whether two texts are the same.
pub fn same_text(a: &str, b: &str) -> (r: bool)
    ensures
        r == (a@ == b@),
{
    let equal = a.unicode_len() == b.unicode_len() && starts_with(a, b);
    proof {
        if a@.len() == b@.len() {
            assert(a@.subrange(0, b@.len() as int) =~= a@);
        }
    }
    equal
}

/// The code of the region called `name`, if there is such a region.
pub fn region_code(name: &str) -> (code: Option<&'static str>)
    ensures
        match code {
            Some(c) => exists|i: int|
                {
                    &&& #[trigger] is_region_named(i, name@)
                    &&& c@ == region_entry(i).1
                    &&& forall|j: int| 0 <= j < i ==> !is_region_named(j, name@)
                },
            None => forall|i: int| !is_region_named(i, name@),
        },
{
    let mut index: usize = 0;
    while index < REGION_COUNT
        invariant
            index <= REGION_COUNT,
            forall|j: int| 0 <= j < index ==> !is_region_named(j, name@),
        decreases REGION_COUNT - index,
    {
        let entry = region_at(index);
        if same_text(entry.0, name) {
            assert(is_region_named(index as int, name@));
            return Some(entry.1);
        }
        index += 1;
    }
    None
}

} // verus!
