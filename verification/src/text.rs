//! Character-level text helpers: finding a separator, splitting on it,
//! trimming whitespace, and joining pieces back together, each with a spec
//! function giving its meaning over `Seq<char>`.

use vstd::prelude::*;
use vstd::string::StrSliceExecFns;

verus! {

/// The characters treated as whitespace by `spec_trim` and `trim`.
pub open spec fn is_space(c: char) -> bool {
    c == ' ' || c == '\t' || c == '\r' || c == '\n'
}

/// Index of the first occurrence of `sep` in `s`, or -1 when `sep` does not
/// occur in `s`.
pub open spec fn spec_find(s: Seq<char>, sep: char) -> int
    decreases s.len(),
{
    if s.len() == 0 {
        -1
    } else if s[0] == sep {
        0
    } else if spec_find(s.drop_first(), sep) == -1 {
        -1
    } else {
        spec_find(s.drop_first(), sep) + 1
    }
}

/// `spec_find` returns -1 exactly when `sep` is absent, and otherwise the
/// least index holding `sep`.
pub proof fn lemma_find_props(s: Seq<char>, sep: char)
    ensures
        spec_find(s, sep) == -1 ==> forall|j: int| 0 <= j < s.len() ==> s[j] != sep,
        spec_find(s, sep) != -1 ==> {
            &&& 0 <= spec_find(s, sep) < s.len()
            &&& s[spec_find(s, sep)] == sep
            &&& forall|j: int| 0 <= j < spec_find(s, sep) ==> s[j] != sep
        },
    decreases s.len(),
{
    if s.len() == 0 {
    } else if s[0] == sep {
    } else {
        lemma_find_props(s.drop_first(), sep);
        let rest = s.drop_first();
        assert forall|j: int| 1 <= j < s.len() implies s[j] == rest[j - 1] by {}
        if spec_find(s, sep) == -1 {
            assert forall|j: int| 0 <= j < s.len() implies s[j] != sep by {
                if j >= 1 {
                    assert(rest[j - 1] != sep);
                }
            }
        } else {
            let i = spec_find(s, sep);
            assert forall|j: int| 0 <= j < i implies s[j] != sep by {
                if j >= 1 {
                    assert(rest[j - 1] != sep);
                }
            }
        }
    }
}

/// When `sep` stands at `i` and nowhere earlier, `spec_find` returns `i`.
pub proof fn lemma_find_is(s: Seq<char>, sep: char, i: int)
    requires
        0 <= i < s.len(),
        s[i] == sep,
        forall|j: int| 0 <= j < i ==> s[j] != sep,
    ensures
        spec_find(s, sep) == i,
{
    lemma_find_props(s, sep);
}

/// When `sep` occurs nowhere in `s`, `spec_find` returns -1.
pub proof fn lemma_find_none(s: Seq<char>, sep: char)
    requires
        forall|j: int| 0 <= j < s.len() ==> s[j] != sep,
    ensures
        spec_find(s, sep) == -1,
{
    lemma_find_props(s, sep);
}

/// The pieces of `s` between occurrences of `sep`, in order. A string
/// without `sep` yields one piece, so the result is never empty; in
/// particular the empty string yields one empty piece.
pub open spec fn spec_split(s: Seq<char>, sep: char) -> Seq<Seq<char>>
    decreases s.len(),
    via spec_split_decreases
{
    let i = spec_find(s, sep);
    if i == -1 {
        seq![s]
    } else {
        seq![s.subrange(0, i)] + spec_split(s.subrange(i + 1, s.len() as int), sep)
    }
}

#[via_fn]
proof fn spec_split_decreases(s: Seq<char>, sep: char) {
    lemma_find_props(s, sep);
}

/// Splitting a string free of `sep` yields that one string.
pub proof fn lemma_split_no_sep(s: Seq<char>, sep: char)
    requires
        forall|j: int| 0 <= j < s.len() ==> s[j] != sep,
    ensures
        spec_split(s, sep) == seq![s],
{
    lemma_find_none(s, sep);
}

/// Splitting at the first separator: the piece before it, then the split of
/// what follows it.
pub proof fn lemma_split_at_first(s: Seq<char>, sep: char, i: int)
    requires
        0 <= i < s.len(),
        s[i] == sep,
        forall|j: int| 0 <= j < i ==> s[j] != sep,
    ensures
        spec_split(s, sep) == seq![s.subrange(0, i)] + spec_split(
            s.subrange(i + 1, s.len() as int),
            sep,
        ),
{
    lemma_find_is(s, sep, i);
}

/// Index of the first occurrence of `sep` in `s`, when there is one.
pub fn find_char(s: &str, sep: char) -> (r: Option<usize>)
    ensures
        match r {
            Some(i) => i == spec_find(s@, sep) && i < s@.len() && s@[i as int] == sep,
            None => spec_find(s@, sep) == -1,
        },
{
    let n = s.unicode_len();
    let mut i: usize = 0;
    while i < n
        invariant
            i <= n == s@.len(),
            forall|j: int| 0 <= j < i ==> s@[j] != sep,
        decreases n - i,
    {
        if s.get_char(i) == sep {
            proof {
                lemma_find_is(s@, sep, i as int);
            }
            return Some(i);
        }
        i += 1;
    }
    proof {
        lemma_find_none(s@, sep);
    }
    None
}

/// Whether two strings hold the same characters.
pub fn str_eq(a: &str, b: &str) -> (r: bool)
    ensures
        r == (a@ == b@),
{
    let na = a.unicode_len();
    let nb = b.unicode_len();
    if na != nb {
        return false;
    }
    let mut i: usize = 0;
    while i < na
        invariant
            i <= na == a@.len(),
            na == b@.len(),
            forall|j: int| 0 <= j < i ==> a@[j] == b@[j],
        decreases na - i,
    {
        if a.get_char(i) != b.get_char(i) {
            return false;
        }
        i += 1;
    }
    proof {
        assert(a@ =~= b@);
    }
    true
}

/// Whether `c` counts as whitespace.
pub fn is_space_exec(c: char) -> (r: bool)
    ensures
        r == is_space(c),
{
    c == ' ' || c == '\t' || c == '\r' || c == '\n'
}

/// The pieces of `s` between occurrences of `sep`, as `spec_split` lays
/// them out.
pub fn split_char(s: &str, sep: char) -> (parts: Vec<String>)
    ensures
        parts.deep_view() == spec_split(s@, sep),
{
    let n = s.unicode_len();
    let mut parts: Vec<String> = Vec::new();
    let mut start: usize = 0;
    let mut i: usize = 0;
    proof {
        assert(s@.subrange(0, n as int) =~= s@);
        assert(parts.deep_view() =~= Seq::<Seq<char>>::empty());
        assert(parts.deep_view() + spec_split(s@, sep) =~= spec_split(s@, sep));
    }
    while i < n
        invariant
            start <= i <= n == s@.len(),
            forall|j: int| start <= j < i ==> s@[j] != sep,
            spec_split(s@, sep) == parts.deep_view() + spec_split(
                s@.subrange(start as int, n as int),
                sep,
            ),
        decreases n - i,
    {
        let c = s.get_char(i);
        if c == sep {
            let piece = s.substring_char(start, i);
            let ghost old_parts = parts.deep_view();
            parts.push(piece.to_owned());
            proof {
                let t = s@.subrange(start as int, n as int);
                assert(t[i - start] == sep);
                assert forall|j: int| 0 <= j < i - start implies t[j] != sep by {
                    assert(t[j] == s@[start + j]);
                }
                lemma_split_at_first(t, sep, i - start);
                assert(t.subrange(0, i - start) =~= s@.subrange(start as int, i as int));
                assert(t.subrange(i - start + 1, t.len() as int) =~= s@.subrange(
                    i + 1,
                    n as int,
                ));
                assert(parts.deep_view() =~= old_parts.push(piece@));
                assert(parts.deep_view() + spec_split(s@.subrange(i + 1, n as int), sep)
                    =~= old_parts + spec_split(t, sep));
            }
            start = i + 1;
        }
        i += 1;
    }
    let piece = s.substring_char(start, n);
    let ghost old_parts = parts.deep_view();
    parts.push(piece.to_owned());
    proof {
        lemma_split_no_sep(s@.subrange(start as int, n as int), sep);
        assert(parts.deep_view() =~= old_parts.push(piece@));
        assert(parts.deep_view() =~= old_parts + spec_split(
            s@.subrange(start as int, n as int),
            sep,
        ));
    }
    parts
}

/// `s` without its leading whitespace.
pub open spec fn spec_trim_start(s: Seq<char>) -> Seq<char>
    decreases s.len(),
{
    if s.len() > 0 && is_space(s[0]) {
        spec_trim_start(s.drop_first())
    } else {
        s
    }
}

/// `s` without its trailing whitespace.
pub open spec fn spec_trim_end(s: Seq<char>) -> Seq<char>
    decreases s.len(),
{
    if s.len() > 0 && is_space(s.last()) {
        spec_trim_end(s.drop_last())
    } else {
        s
    }
}

/// `s` without leading and trailing whitespace.
pub open spec fn spec_trim(s: Seq<char>) -> Seq<char> {
    spec_trim_end(spec_trim_start(s))
}

/// Dropping `a` leading whitespace characters, up to the first character
/// that is not whitespace, is what `spec_trim_start` does.
proof fn lemma_trim_start_at(s: Seq<char>, a: int)
    requires
        0 <= a <= s.len(),
        forall|j: int| 0 <= j < a ==> is_space(s[j]),
        a < s.len() ==> !is_space(s[a]),
    ensures
        spec_trim_start(s) == s.subrange(a, s.len() as int),
    decreases a,
{
    if a == 0 {
        assert(s.subrange(0, s.len() as int) =~= s);
    } else {
        let rest = s.drop_first();
        assert forall|j: int| 0 <= j < a - 1 implies is_space(rest[j]) by {
            assert(rest[j] == s[j + 1]);
        }
        lemma_trim_start_at(rest, a - 1);
        assert(rest.subrange(a - 1, rest.len() as int) =~= s.subrange(a, s.len() as int));
    }
}

/// Dropping trailing whitespace back to position `b` is what
/// `spec_trim_end` does.
proof fn lemma_trim_end_at(s: Seq<char>, b: int)
    requires
        0 <= b <= s.len(),
        forall|j: int| b <= j < s.len() ==> is_space(s[j]),
        b > 0 ==> !is_space(s[b - 1]),
    ensures
        spec_trim_end(s) == s.subrange(0, b),
    decreases s.len() - b,
{
    if b == s.len() {
        assert(s.subrange(0, s.len() as int) =~= s);
    } else {
        let rest = s.drop_last();
        assert(is_space(s.last()));
        lemma_trim_end_at(rest, b);
        assert(rest.subrange(0, b) =~= s.subrange(0, b));
    }
}

/// A string that neither starts nor ends with whitespace trims to itself.
pub proof fn lemma_trim_untouched(s: Seq<char>)
    requires
        s.len() > 0,
        !is_space(s[0]),
        !is_space(s.last()),
    ensures
        spec_trim(s) == s,
{
    assert(spec_trim_start(s) == s);
    assert(spec_trim_end(s) == s);
}

/// `s` with leading and trailing whitespace removed, as `spec_trim` lays
/// it out.
pub fn trim<'a>(s: &'a str) -> (r: &'a str)
    ensures
        r@ == spec_trim(s@),
{
    let n = s.unicode_len();
    let mut a: usize = 0;
    loop
        invariant
            a <= n == s@.len(),
            forall|j: int| 0 <= j < a ==> is_space(s@[j]),
        ensures
            a <= n,
            forall|j: int| 0 <= j < a ==> is_space(s@[j]),
            a < n ==> !is_space(s@[a as int]),
        decreases n - a,
    {
        if a == n {
            break ;
        }
        if !is_space_exec(s.get_char(a)) {
            break ;
        }
        a += 1;
    }
    let mut b: usize = n;
    loop
        invariant
            a <= b <= n == s@.len(),
            forall|j: int| b <= j < n ==> is_space(s@[j]),
            a < n ==> !is_space(s@[a as int]),
        ensures
            a <= b <= n,
            forall|j: int| b <= j < n ==> is_space(s@[j]),
            b > a ==> !is_space(s@[b - 1]),
        decreases b,
    {
        if b == a {
            break ;
        }
        if !is_space_exec(s.get_char(b - 1)) {
            break ;
        }
        b -= 1;
    }
    let r = s.substring_char(a, b);
    proof {
        lemma_trim_start_at(s@, a as int);
        let t = s@.subrange(a as int, n as int);
        assert forall|j: int| b - a <= j < t.len() implies is_space(t[j]) by {
            assert(t[j] == s@[a + j]);
        }
        if b > a {
            assert(t[b - a - 1] == s@[b - 1]);
        }
        lemma_trim_end_at(t, b - a);
        assert(t.subrange(0, b - a) =~= s@.subrange(a as int, b as int));
    }
    r
}

/// The pieces of `parts` laid end to end with `sep` between neighbours.
pub open spec fn spec_join(parts: Seq<Seq<char>>, sep: char) -> Seq<char>
    decreases parts.len(),
{
    if parts.len() == 0 {
        Seq::empty()
    } else if parts.len() == 1 {
        parts[0]
    } else {
        parts[0] + seq![sep] + spec_join(parts.drop_first(), sep)
    }
}

/// Joining one more piece appends a separator and that piece, except on an
/// empty sequence, where it is the piece alone.
pub proof fn lemma_join_push(parts: Seq<Seq<char>>, piece: Seq<char>, sep: char)
    ensures
        parts.len() == 0 ==> spec_join(parts.push(piece), sep) == piece,
        parts.len() > 0 ==> spec_join(parts.push(piece), sep) == spec_join(parts, sep)
            + seq![sep] + piece,
    decreases parts.len(),
{
    let whole = parts.push(piece);
    if parts.len() == 0 {
        assert(whole[0] =~= piece);
    } else if parts.len() == 1 {
        assert(whole.drop_first() =~= seq![piece]);
        assert(spec_join(whole.drop_first(), sep) == piece);
        assert(whole[0] == parts[0]);
        assert(spec_join(whole, sep) == parts[0] + seq![sep] + piece);
        assert(spec_join(parts, sep) == parts[0]);
    } else {
        assert(whole.drop_first() =~= parts.drop_first().push(piece));
        lemma_join_push(parts.drop_first(), piece, sep);
        assert(spec_join(whole.drop_first(), sep) == spec_join(parts.drop_first(), sep)
            + seq![sep] + piece);
        assert(whole[0] == parts[0]);
        assert(spec_join(whole, sep) == whole[0] + seq![sep] + spec_join(
            whole.drop_first(),
            sep,
        ));
        assert(spec_join(parts, sep) == parts[0] + seq![sep] + spec_join(
            parts.drop_first(),
            sep,
        ));
        assert(spec_join(whole, sep) =~= spec_join(parts, sep) + seq![sep] + piece);
    }
}

/// The pieces of `parts` joined with a newline between neighbours, as
/// `spec_join` lays them out.
pub fn join_lines(parts: &Vec<String>) -> (r: String)
    ensures
        r@ == spec_join(parts.deep_view(), '\n'),
{
    let mut r = String::new();
    let mut i: usize = 0;
    while i < parts.len()
        invariant
            i <= parts@.len(),
            r@ == spec_join(parts.deep_view().subrange(0, i as int), '\n'),
        decreases parts@.len() - i,
    {
        if i > 0 {
            r.append("\n");
        }
        r.append(parts[i].as_str());
        proof {
            reveal_strlit("\n");
            let views = parts.deep_view();
            let prefix = views.subrange(0, i as int);
            lemma_join_push(prefix, views[i as int], '\n');
            assert(prefix.push(views[i as int]) =~= views.subrange(0, i + 1));
            assert("\n"@ =~= seq!['\n']);
        }
        i += 1;
    }
    proof {
        assert(parts.deep_view().subrange(0, parts@.len() as int) =~= parts.deep_view());
    }
    r
}

/// Splitting a join recovers the pieces, provided there is at least one
/// piece and no piece holds the separator.
pub proof fn lemma_split_of_join(parts: Seq<Seq<char>>, sep: char)
    requires
        parts.len() >= 1,
        forall|k: int, j: int|
            0 <= k < parts.len() && 0 <= j < parts[k].len() ==> #[trigger] parts[k][j] != sep,
    ensures
        spec_split(spec_join(parts, sep), sep) == parts,
    decreases parts.len(),
{
    let whole = spec_join(parts, sep);
    if parts.len() == 1 {
        assert(whole == parts[0]);
        lemma_split_no_sep(parts[0], sep);
        assert(seq![parts[0]] =~= parts);
    } else {
        let head = parts[0];
        let rest = parts.drop_first();
        let tail = spec_join(rest, sep);
        assert(whole =~= head + seq![sep] + tail);
        let i = head.len() as int;
        assert(whole[i] == sep);
        assert forall|j: int| 0 <= j < i implies whole[j] != sep by {
            assert(whole[j] == head[j]);
        }
        lemma_split_at_first(whole, sep, i);
        assert(whole.subrange(0, i) =~= head);
        assert(whole.subrange(i + 1, whole.len() as int) =~= tail);
        assert forall|k: int, j: int|
            0 <= k < rest.len() && 0 <= j < rest[k].len() implies #[trigger] rest[k][j]
            != sep by {
            assert(rest[k] == parts[k + 1]);
        }
        lemma_split_of_join(rest, sep);
        assert(seq![head] + rest =~= parts);
    }
}

} // verus!
