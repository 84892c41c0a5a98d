//! The configuration model: a flat `key = value` file with one recognised
//! key, `save_path`, naming where the saved-ids file lives. A line is split
//! at its first `=`; a non-blank line without `=` makes the whole parse
//! fail. Unknown keys are ignored, and a later `save_path` line overrides an
//! earlier one.

use crate::text::{find_char, spec_find, spec_split, spec_trim, split_char, str_eq, trim};
use vstd::prelude::*;
use vstd::string::StrSliceExecFns;

verus! {

/// The configuration of one run: where saved identifiers live, and whether
/// loading that setting failed. A failed configuration carries an empty
/// path, and duplicate avoidance and saving are disabled for the run.
pub struct NidConfig {
    pub save_path: String,
    pub failed: bool,
}

impl NidConfig {
    /// The configuration of a run whose config file was missing, unreadable
    /// or malformed.
    pub fn failed() -> (c: NidConfig)
        ensures
            c.failed,
            c.save_path@ == Seq::<char>::empty(),
    {
        NidConfig { save_path: String::new(), failed: true }
    }

    /// A successfully loaded configuration with the given saved-ids path.
    pub fn success(path: String) -> (c: NidConfig)
        ensures
            !c.failed,
            c.save_path == path,
    {
        NidConfig { save_path: path, failed: false }
    }
}

/// What remains of parsing `lines` with `acc` as the `save_path` value seen
/// so far: `None` on the first non-blank line without `=`, otherwise the
/// value of the last `save_path` line, or `acc` when none appears.
pub open spec fn spec_parse_lines(lines: Seq<Seq<char>>, acc: Seq<char>) -> Option<Seq<char>>
    decreases lines.len(),
{
    if lines.len() == 0 {
        Some(acc)
    } else {
        let line = lines[0];
        if spec_trim(line).len() == 0 {
            spec_parse_lines(lines.drop_first(), acc)
        } else if spec_find(line, '=') >= 0 {
            let e = spec_find(line, '=');
            let key = spec_trim(line.subrange(0, e));
            let value = spec_trim(line.subrange(e + 1, line.len() as int));
            if key == "save_path"@ {
                spec_parse_lines(lines.drop_first(), value)
            } else {
                spec_parse_lines(lines.drop_first(), acc)
            }
        } else {
            None
        }
    }
}

/// The `save_path` that a configuration file with this content names, or
/// `None` when some non-blank line has no `=`. A file with no `save_path`
/// line parses to the empty path.
pub open spec fn spec_parse_config(content: Seq<char>) -> Option<Seq<char>> {
    spec_parse_lines(spec_split(content, '\n'), Seq::<char>::empty())
}

/// Parses the text of a configuration file. On a malformed file the result
/// is the failed configuration; otherwise it carries the `save_path` value
/// the file names (empty when the file names none).
pub fn parse_config(content: &str) -> (c: NidConfig)
    ensures
        match spec_parse_config(content@) {
            Some(p) => !c.failed && c.save_path@ == p,
            None => c.failed && c.save_path@ == Seq::<char>::empty(),
        },
{
    let lines = split_char(content, '\n');
    let ghost all_lines = lines.deep_view();
    let mut save_path = String::new();
    let mut i: usize = 0;
    proof {
        assert(all_lines.subrange(0, all_lines.len() as int) =~= all_lines);
    }
    while i < lines.len()
        invariant
            i <= lines@.len(),
            all_lines == lines.deep_view(),
            all_lines == spec_split(content@, '\n'),
            spec_parse_lines(all_lines, Seq::<char>::empty()) == spec_parse_lines(
                all_lines.subrange(i as int, all_lines.len() as int),
                save_path@,
            ),
        decreases lines@.len() - i,
    {
        let ghost remaining = all_lines.subrange(i as int, all_lines.len() as int);
        proof {
            assert(remaining[0] == all_lines[i as int]);
            assert(remaining.drop_first() =~= all_lines.subrange(
                i + 1,
                all_lines.len() as int,
            ));
        }
        let line = &lines[i];
        let trimmed = trim(line.as_str());
        if trimmed.unicode_len() == 0 {
        } else {
            match find_char(line.as_str(), '=') {
                Some(e) => {
                    let n = line.as_str().unicode_len();
                    let key = trim(line.as_str().substring_char(0, e));
                    let value = trim(line.as_str().substring_char(e + 1, n));
                    if str_eq(key, "save_path") {
                        save_path = value.to_owned();
                    }
                },
                None => {
                    proof {
                        assert(line@ == remaining[0]);
                        assert(spec_parse_lines(remaining, save_path@) is None);
                    }
                    return NidConfig::failed();
                },
            }
        }
        i += 1;
    }
    proof {
        assert(all_lines.subrange(all_lines.len() as int, all_lines.len() as int)
            =~= Seq::<Seq<char>>::empty());
    }
    NidConfig::success(save_path)
}

} // verus!
