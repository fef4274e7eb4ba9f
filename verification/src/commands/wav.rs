//! Options and grammar of the concatenation command.

use vstd::prelude::*;
use vstd::string::*;
use crate::error::SigenError;
use crate::strutil::str_eq;

verus! {

/// Arguments of the concatenation command.
#[derive(Clone, Debug)]
pub struct WavOptions {
    /// Raw argument list: input names, `cat`, commands, `output`, name.
    pub inputs: Vec<String>,
}


/// The index of the first entry of `v` at or after `from` that reads
/// `w`, or minus one.
pub open spec fn spec_find_word(v: Seq<Seq<char>>, w: Seq<char>, from: int) -> int
    recommends
        0 <= from <= v.len(),
    decreases v.len() - from,
{
    if from < 0 || from >= v.len() {
        -1
    } else if v[from] == w {
        from
    } else {
        spec_find_word(v, w, from + 1)
    }
}

/// Finds the first entry of `v` at or after `from` that reads `word`.
fn find_word(v: &Vec<String>, word: &str, from: usize) -> (r: Option<usize>)
    requires
        from <= v@.len(),
    ensures
        match r {
            Some(i) => from <= i < v@.len() && spec_find_word(v.deep_view(), word@, from as int)
                == i as int,
            None => spec_find_word(v.deep_view(), word@, from as int) == -1,
        },
{
    let len: usize = v.len();
    let mut i: usize = from;
    while i < len
        invariant
            from <= i <= len,
            len == v@.len(),
            spec_find_word(v.deep_view(), word@, from as int) == spec_find_word(
                v.deep_view(),
                word@,
                i as int,
            ),
        decreases len - i,
    {
        if str_eq(v[i].as_str(), word) {
            proof {
                assert(v.deep_view()[i as int] == v@[i as int]@);
            }
            return Some(i);
        }
        proof {
            assert(v.deep_view()[i as int] == v@[i as int]@);
        }
        i = i + 1;
    }
    None
}

/// Copies the entries `v[from..to]`.
fn clone_range(v: &Vec<String>, from: usize, to: usize) -> (r: Vec<String>)
    requires
        from <= to <= v@.len(),
    ensures
        r.deep_view() == v.deep_view().subrange(from as int, to as int),
{
    let mut r: Vec<String> = Vec::new();
    let mut i: usize = from;
    while i < to
        invariant
            from <= i <= to <= v@.len(),
            r@.len() == i - from,
            forall|j: int| 0 <= j < i - from ==> #[trigger] r@[j]@ == v@[from + j]@,
        decreases to - i,
    {
        r.push(v[i].clone());
        i = i + 1;
    }
    proof {
        assert(forall|j: int|
            0 <= j < r@.len() ==> #[trigger] r.deep_view()[j] == r@[j]@);
        assert(forall|j: int|
            0 <= j < v@.len() ==> #[trigger] v.deep_view()[j] == v@[j]@);
        assert(r.deep_view() =~~= v.deep_view().subrange(from as int, to as int));
    }
    r
}

impl WavOptions {
    /// Splits the raw argument list into the input names (everything
    /// before the first `cat`), the concatenation commands (everything
    /// between `cat` and `output`; none when that span is empty), and
    /// the output filename (the entry after `output`).
    ///
    /// A missing `cat` marker, a missing `output` marker, and a missing
    /// output filename each surface as their own error.
    pub fn parse_commands(&self) -> (r: Result<
        (Vec<String>, Option<Vec<String>>, String),
        SigenError,
    >)
        ensures
            ({
                let dv = self.inputs.deep_view();
                let c = spec_find_word(dv, "cat"@, 0);
                let o = spec_find_word(dv, "output"@, c + 1);
                match r {
                    Ok(t) => c >= 0 && o >= 0 && o + 1 < dv.len() && t.0.deep_view()
                        == dv.subrange(0, c) && (match t.1 {
                        Some(cmds) => o > c + 1 && cmds.deep_view() == dv.subrange(c + 1, o),
                        None => o == c + 1,
                    }) && t.2@ == dv[o + 1],
                    Err(e) => match e {
                        SigenError::CatCommandNotGiven => c < 0,
                        SigenError::OutputCommandNotGiven => c >= 0 && o < 0,
                        SigenError::OutputFilenameNotGiven => c >= 0 && o >= 0 && o + 1
                            >= dv.len(),
                        _ => false,
                    },
                }
            }),
    {
        let len: usize = self.inputs.len();
        let cat_idx: usize = match find_word(&self.inputs, "cat", 0) {
            Some(i) => i,
            None => {
                return Err(SigenError::CatCommandNotGiven);
            },
        };
        let out_idx: usize = match find_word(&self.inputs, "output", cat_idx + 1) {
            Some(i) => i,
            None => {
                return Err(SigenError::OutputCommandNotGiven);
            },
        };
        if out_idx + 1 >= len {
            return Err(SigenError::OutputFilenameNotGiven);
        }
        let input_filenames: Vec<String> = clone_range(&self.inputs, 0, cat_idx);
        let cat_commands: Option<Vec<String>> = if out_idx == cat_idx + 1 {
            None
        } else {
            Some(clone_range(&self.inputs, cat_idx + 1, out_idx))
        };
        let output_filename: String = self.inputs[out_idx + 1].clone();
        Ok((input_filenames, cat_commands, output_filename))
    }
}

} // verus!
