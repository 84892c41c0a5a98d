//! The saved-identifier set: an ordered sequence of identifier strings,
//! loaded from and written back to a newline-delimited text file. The set
//! itself does not deduplicate; uniqueness of a new identifier is the
//! generator's retry loop's business.

use crate::text::{
    is_space, join_lines, lemma_split_of_join, lemma_trim_untouched, spec_join, spec_split,
    spec_trim, split_char, str_eq, trim,
};
use vstd::prelude::*;
use vstd::string::StrSliceExecFns;

verus! {

/// Whether `c` is an ASCII letter, upper- or lower-case.
pub open spec fn is_letter(c: char) -> bool {
    ('A' <= c && c <= 'Z') || ('a' <= c && c <= 'z')
}

/// Whether `c` is a decimal digit.
pub open spec fn is_digit(c: char) -> bool {
    '0' <= c && c <= '9'
}

/// The number spelled by the last two characters of an identifier.
pub open spec fn id_number(s: Seq<char>) -> int {
    (s[3] as int - 48) * 10 + (s[4] as int - 48)
}

/// A well-formed identifier: three letters, each independently upper- or
/// lower-case, followed by the two digits of a number in [10, 99].
pub open spec fn is_valid_id(s: Seq<char>) -> bool {
    &&& s.len() == 5
    &&& is_letter(s[0])
    &&& is_letter(s[1])
    &&& is_letter(s[2])
    &&& is_digit(s[3])
    &&& is_digit(s[4])
    &&& 10 <= id_number(s) <= 99
}

/// The saved-ids sequence held in a file with this content: the content,
/// trimmed of surrounding whitespace, split on newlines. An empty file
/// yields one empty entry, a quirk this library keeps; it is benign because
/// a generated identifier is never empty.
pub open spec fn spec_saved_ids(content: Seq<char>) -> Seq<Seq<char>> {
    spec_split(spec_trim(content), '\n')
}

/// Loads the saved identifiers out of the text of a saved-ids file.
pub fn read_saved_ids(content: &str) -> (ids: Vec<String>)
    ensures
        ids.deep_view() == spec_saved_ids(content@),
{
    let t = trim(content);
    split_char(t, '\n')
}

/// Exact string membership in the saved set.
pub fn contains_id(ids: &Vec<String>, candidate: &str) -> (b: bool)
    ensures
        b == ids.deep_view().contains(candidate@),
{
    let mut i: usize = 0;
    while i < ids.len()
        invariant
            i <= ids@.len(),
            forall|k: int| 0 <= k < i ==> ids.deep_view()[k] != candidate@,
        decreases ids@.len() - i,
    {
        if str_eq(ids[i].as_str(), candidate) {
            proof {
                assert(ids.deep_view()[i as int] == candidate@);
            }
            return true;
        }
        i += 1;
    }
    proof {
        assert(!ids.deep_view().contains(candidate@));
    }
    false
}

/// Appends one identifier to the in-memory sequence, keeping the order of
/// what was already there.
pub fn append_id(ids: &mut Vec<String>, new_id: String)
    ensures
        final(ids).deep_view() == old(ids).deep_view().push(new_id@),
{
    let ghost before = ids.deep_view();
    ids.push(new_id);
    proof {
        assert(ids.deep_view() =~= before.push(new_id@));
    }
}

/// The full saved sequence joined with newline separators: what is written
/// back over the saved-ids file after an append.
pub fn join_ids(ids: &Vec<String>) -> (r: String)
    ensures
        r@ == spec_join(ids.deep_view(), '\n'),
{
    join_lines(ids)
}

/// Whether some saved entry is a well-formed identifier. While none is, a
/// freshly generated identifier can never collide with the saved set.
pub open spec fn has_valid_id(ids: Seq<Seq<char>>) -> bool {
    exists|k: int| 0 <= k < ids.len() && is_valid_id(#[trigger] ids[k])
}

/// An entry that survives the saved-ids file unchanged: non-empty, free of
/// newlines, and without whitespace at either end. Every well-formed
/// identifier is one.
pub open spec fn is_clean_entry(s: Seq<char>) -> bool {
    &&& s.len() >= 1
    &&& !is_space(s[0])
    &&& !is_space(s.last())
    &&& forall|j: int| 0 <= j < s.len() ==> #[trigger] s[j] != '\n'
}

/// A well-formed identifier holds no whitespace, in particular no newline.
pub proof fn lemma_valid_id_has_no_space(s: Seq<char>)
    requires
        is_valid_id(s),
    ensures
        forall|j: int| 0 <= j < s.len() ==> !is_space(#[trigger] s[j]),
{
    assert forall|j: int| 0 <= j < s.len() implies !is_space(s[j]) by {
        assert(j == 0 || j == 1 || j == 2 || j == 3 || j == 4);
    }
}

/// A well-formed identifier is a clean saved-ids entry.
pub proof fn lemma_valid_id_is_clean_entry(s: Seq<char>)
    requires
        is_valid_id(s),
    ensures
        is_clean_entry(s),
{
    lemma_valid_id_has_no_space(s);
}

/// Joining clean entries yields text with no surrounding whitespace, so
/// trimming it changes nothing.
proof fn lemma_join_of_clean_trims_to_itself(ids: Seq<Seq<char>>)
    requires
        ids.len() >= 1,
        forall|k: int| 0 <= k < ids.len() ==> is_clean_entry(#[trigger] ids[k]),
    ensures
        spec_trim(spec_join(ids, '\n')) == spec_join(ids, '\n'),
{
    let whole = spec_join(ids, '\n');
    lemma_join_last(ids);
    assert(!is_space(ids.last().last()));
    if ids.len() == 1 {
        assert(whole == ids[0]);
    } else {
        let tail = spec_join(ids.drop_first(), '\n');
        assert(whole =~= ids[0] + seq!['\n'] + tail);
        assert(whole[0] == ids[0][0]);
    }
    assert(!is_space(whole[0]));
    lemma_trim_untouched(whole);
}

/// The last character of a join of non-empty pieces is the last character
/// of the last piece.
proof fn lemma_join_last(ids: Seq<Seq<char>>)
    requires
        ids.len() >= 1,
        forall|k: int| 0 <= k < ids.len() ==> #[trigger] ids[k].len() >= 1,
    ensures
        spec_join(ids, '\n').len() >= 1,
        spec_join(ids, '\n').last() == ids.last().last(),
    decreases ids.len(),
{
    if ids.len() == 1 {
    } else {
        let rest = ids.drop_first();
        assert forall|k: int| 0 <= k < rest.len() implies #[trigger] rest[k].len() >= 1 by {
            assert(rest[k] == ids[k + 1]);
        }
        lemma_join_last(rest);
        let whole = spec_join(ids, '\n');
        let tail = spec_join(rest, '\n');
        assert(whole =~= ids[0] + seq!['\n'] + tail);
        assert(whole.last() == tail.last());
        assert(rest.last() == ids.last());
    }
}

/// Round trip of the saved-ids file: append a well-formed identifier to a
/// sequence of clean entries, write the joined text out, reload it, and the
/// loaded sequence is the old one with the new identifier at the end — the
/// prior elements unchanged and in order.
pub proof fn lemma_saved_ids_round_trip(ids: Seq<Seq<char>>, new_id: Seq<char>)
    requires
        forall|k: int| 0 <= k < ids.len() ==> is_clean_entry(#[trigger] ids[k]),
        is_valid_id(new_id),
    ensures
        spec_saved_ids(spec_join(ids.push(new_id), '\n')) == ids.push(new_id),
        spec_saved_ids(spec_join(ids.push(new_id), '\n')).last() == new_id,
        spec_saved_ids(spec_join(ids.push(new_id), '\n')).drop_last() == ids,
{
    let whole = ids.push(new_id);
    assert forall|k: int| 0 <= k < whole.len() implies is_clean_entry(#[trigger] whole[k]) by {
        if k < ids.len() {
            assert(whole[k] == ids[k]);
        } else {
            assert(whole[k] == new_id);
            lemma_valid_id_is_clean_entry(new_id);
        }
    }
    lemma_join_of_clean_trims_to_itself(whole);
    assert forall|k: int, j: int|
        0 <= k < whole.len() && 0 <= j < whole[k].len() implies #[trigger] whole[k][j]
        != '\n' by {
        assert(is_clean_entry(whole[k]));
    }
    lemma_split_of_join(whole, '\n');
    assert(whole.drop_last() =~= ids);
}

} // verus!
