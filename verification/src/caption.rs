//! The text shown with a wallpaper.

use vstd::prelude::*;
use vstd::string::*;
use crate::text::push_char;

verus! {

/// What one character of a copyright text becomes on display: a comma
/// and an opening bracket break the line, a closing bracket is dropped.
pub open spec fn shown_as(c: char) -> Seq<char> {
    if c == ',' || c == '(' {
        seq!['\n']
    } else if c == ')' {
        Seq::empty()
    } else {
        seq![c]
    }
}

/// The display form of a copyright text: each character as `shown_as` has it.
pub open spec fn caption_of(text: Seq<char>) -> Seq<char>
    decreases text.len(),
{
    if text.len() == 0 {
        Seq::empty()
    } else {
        caption_of(text.drop_last()) + shown_as(text.last())
    }
}

/// Lays out a copyright text for display.
pub fn caption(text: &str) -> (shown: String)
    ensures
        shown@ == caption_of(text@),
{
    let n: usize = text.unicode_len();
    let mut shown = String::new();
    let mut i: usize = 0;
    while i < n
        invariant
            i <= n,
            n == text@.len(),
            shown@ == caption_of(text@.subrange(0, i as int)),
        decreases n - i,
    {
        let c = text.get_char(i);
        proof {
            let upto = text@.subrange(0, i + 1);
            assert(upto.drop_last() =~= text@.subrange(0, i as int));
            assert(upto.last() == c);
        }
        if c == ',' || c == '(' {
            push_char(&mut shown, '\n');
            assert(shown@ =~= caption_of(text@.subrange(0, i as int)) + seq!['\n']);
        } else if c != ')' {
            push_char(&mut shown, c);
            assert(shown@ =~= caption_of(text@.subrange(0, i as int)) + seq![c]);
        } else {
            assert(shown@ =~= caption_of(text@.subrange(0, i as int)) + Seq::<char>::empty());
        }
        i += 1;
    }
    assert(text@.subrange(0, n as int) =~= text@);
    shown
}

} // verus!
