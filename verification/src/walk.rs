//! Traversal filtering: which directory entries belong to an update batch.
//!
//! The walker outside the library visits entries recursively; these
//! predicates decide, from names alone, what it keeps: hidden entries (name
//! starting with a dot) are pruned at every level, and only files with the
//! note extension are indexed.

use vstd::prelude::*;
use vstd::string::StrSliceExecFns;

verus! {

/// A hidden entry: its name starts with a dot.
pub open spec fn spec_hidden(name: Seq<char>) -> bool {
    name.len() > 0 && name[0] == '.'
}

/// The note file extension, dot included.
pub open spec fn note_ext() -> Seq<char> {
    seq!['.', 'm', 'd']
}

/// A note file name: long enough to have a stem, and ending in the note
/// extension.
pub open spec fn spec_note_filename(name: Seq<char>) -> bool {
    name.len() >= 4 && name.skip(name.len() - 3) == note_ext()
}

/// Whether a relative path, given as its components from the top of the
/// walk, belongs to an update batch: no component hidden, and the final
/// component a note file name.
pub open spec fn spec_in_batch(components: Seq<Seq<char>>) -> bool {
    &&& components.len() > 0
    &&& (forall|i: int| 0 <= i < components.len() ==> !spec_hidden(#[trigger] components[i]))
    &&& spec_note_filename(components[components.len() - 1])
}

/// Whether a directory entry is hidden and the walk prunes it.
pub fn is_hidden_name(name: &str) -> (r: bool)
    ensures
        r == spec_hidden(name@),
{
    let n = name.unicode_len();
    if n == 0 {
        return false;
    }
    let c = name.get_char(0);
    c == '.'
}

/// Whether a file name carries the note extension.
pub fn is_note_filename(name: &str) -> (r: bool)
    ensures
        r == spec_note_filename(name@),
{
    let n = name.unicode_len();
    if n < 4 {
        return false;
    }
    let a = name.get_char(n - 3);
    let b = name.get_char(n - 2);
    let c = name.get_char(n - 1);
    let r = a == '.' && b == 'm' && c == 'd';
    proof {
        if r {
            assert(name@.skip(name@.len() - 3) =~= note_ext());
        } else {
            assert(name@.skip(name@.len() - 3) != note_ext()) by {
                if name@.skip(name@.len() - 3) == note_ext() {
                    assert(name@[name@.len() - 3] == '.');
                    assert(name@[name@.len() - 2] == 'm');
                    assert(name@[name@.len() - 1] == 'd');
                }
            }
        }
    }
    r
}

/// Whether a relative path, given as its components, belongs to an update
/// batch, per `spec_in_batch`: a hidden component anywhere, or a final
/// component without the note extension, excludes the entry.
pub fn in_batch(components: &Vec<String>) -> (r: bool)
    ensures
        r == spec_in_batch(components.deep_view()),
{
    let ghost cdv = components.deep_view();
    if components.len() == 0 {
        return false;
    }
    let mut i: usize = 0;
    while i < components.len()
        invariant
            i <= components@.len(),
            cdv == components.deep_view(),
            cdv.len() == components@.len(),
            forall|j: int| 0 <= j < i ==> !spec_hidden(#[trigger] cdv[j]),
        decreases components@.len() - i,
    {
        if is_hidden_name(components[i].as_str()) {
            proof {
                assert(spec_hidden(cdv[i as int]));
            }
            return false;
        }
        i = i + 1;
    }
    is_note_filename(components[components.len() - 1].as_str())
}

} // verus!
