//! Planning of the concatenation command.
//!
//! The input files are held in an insertion-ordered map from the
//! `indexmap` crate; reading and writing the files themselves is the
//! caller's business, so the plan lists what to read and where silence
//! goes.

use vstd::prelude::*;
use vstd::string::*;
use crate::error::SigenError;
use crate::fileio::spec_is_wav_file;
use crate::strutil::{find_first_char, first_index_of, is_digit, u64_to_string};

verus! {

#[verifier::external_type_specification]
#[verifier::external_body]
#[verifier::reject_recursive_types(K)]
#[verifier::reject_recursive_types(V)]
#[verifier::reject_recursive_types(S)]
pub struct ExIndexMap<K, V, S>(indexmap::IndexMap<K, V, S>);

/// The entries an index map holds, in insertion order, as viewed
/// key/value pairs.
pub uninterp spec fn imap_entries(m: indexmap::IndexMap<String, String>) -> Seq<
    (Seq<char>, Seq<char>),
>;

/// The first index at or after `from` whose entry holds key `k`, or
/// minus one.
pub open spec fn entries_find(es: Seq<(Seq<char>, Seq<char>)>, k: Seq<char>, from: int) -> int
    recommends
        0 <= from <= es.len(),
    decreases es.len() - from,
{
    if from < 0 || from >= es.len() {
        -1
    } else if es[from].0 == k {
        from
    } else {
        entries_find(es, k, from + 1)
    }
}

/// The entry list after an insertion-ordered insert: a present key
/// keeps its place and takes the new value, an absent key is appended.
pub open spec fn spec_insert(
    es: Seq<(Seq<char>, Seq<char>)>,
    k: Seq<char>,
    v: Seq<char>,
) -> Seq<(Seq<char>, Seq<char>)> {
    let i = entries_find(es, k, 0);
    if i >= 0 {
        es.update(i, (k, v))
    } else {
        es.push((k, v))
    }
}

/// Relies on indexmap's `IndexMap::new`: a new map is empty.
#[verifier::external_body]
fn imap_new() -> (m: indexmap::IndexMap<String, String>)
    ensures
        imap_entries(m) == Seq::<(Seq<char>, Seq<char>)>::empty(),
{
    indexmap::IndexMap::new()
}

/// Relies on indexmap's `IndexMap::insert`: an existing key retains its
/// place in the order and its value is updated; a new key-value pair is
/// inserted last in order.
#[verifier::external_body]
fn imap_insert(m: &mut indexmap::IndexMap<String, String>, k: String, v: String)
    ensures
        imap_entries(*final(m)) == spec_insert(imap_entries(*old(m)), k@, v@),
{
    m.insert(k, v);
}

/// Relies on indexmap's `IndexMap::get`: the value stored for the
/// looked-up key, if the key is present.  The value is returned as a
/// copy.
#[verifier::external_body]
fn imap_get(m: &indexmap::IndexMap<String, String>, k: &str) -> (r: Option<String>)
    ensures
        ({
            let es = imap_entries(*m);
            let i = entries_find(es, k@, 0);
            match r {
                Some(v) => i >= 0 && v@ == es[i].1,
                None => i == -1,
            }
        }),
{
    m.get(k).cloned()
}

/// Relies on indexmap's `IndexMap::get_index`: the key-value pair at a
/// position in the order, valid exactly below `len`.  The pair is
/// returned as a copy.
#[verifier::external_body]
fn imap_get_index(m: &indexmap::IndexMap<String, String>, i: usize) -> (r: Option<
    (String, String),
>)
    ensures
        ({
            let es = imap_entries(*m);
            match r {
                Some(p) => i < es.len() && p.0@ == es[i as int].0 && p.1@ == es[i as int].1,
                None => i >= es.len(),
            }
        }),
{
    match m.get_index(i) {
        Some(p) => Some((p.0.clone(), p.1.clone())),
        None => None,
    }
}

/// Relies on indexmap's `IndexMap::len`: the number of entries.
#[verifier::external_body]
fn imap_len(m: &indexmap::IndexMap<String, String>) -> (r: usize)
    ensures
        r == imap_entries(*m).len(),
{
    m.len()
}

/// What one input argument contributes: `None` when it is rejected.
///
/// An argument naming an existing file is keyed by its position; one of
/// the form `key=file` is keyed by `key`, and its file, which must be
/// checked on disk by the caller, is noted; anything else is rejected.
pub open spec fn spec_input_step(
    acc: (Seq<(Seq<char>, Seq<char>)>, Seq<Seq<char>>),
    s: Seq<char>,
    ex: bool,
    idx: int,
) -> Option<(Seq<(Seq<char>, Seq<char>)>, Seq<Seq<char>>)> {
    if ex {
        if spec_is_wav_file(s) {
            Some((spec_insert(acc.0, crate::strutil::dec_str(idx as nat), s), acc.1))
        } else {
            None
        }
    } else {
        let p = first_index_of(s, '=');
        if p >= 0 {
            let f = s.skip(p + 1);
            if spec_is_wav_file(f) {
                Some((spec_insert(acc.0, s.take(p), f), acc.1.push(f)))
            } else {
                None
            }
        } else {
            None
        }
    }
}

/// The on-disk name an input argument asks to have checked: the
/// argument itself when it names an existing file, else the part after
/// its first equals sign.
pub open spec fn spec_checked_name(s: Seq<char>, ex: bool) -> Seq<char> {
    if ex {
        s
    } else {
        s.skip(first_index_of(s, '=') + 1)
    }
}

/// The map and check list the first `n` input arguments build up.
pub open spec fn spec_parse_inputs(items: Seq<Seq<char>>, exists: Seq<bool>, n: int) -> Option<
    (Seq<(Seq<char>, Seq<char>)>, Seq<Seq<char>>),
>
    recommends
        0 <= n <= items.len(),
        items.len() == exists.len(),
    decreases n,
{
    if n <= 0 {
        Some((Seq::empty(), Seq::empty()))
    } else {
        match spec_parse_inputs(items, exists, n - 1) {
            Some(acc) => spec_input_step(acc, items[n - 1], exists[n - 1], n - 1),
            None => None,
        }
    }
}

/// Collects the input files of a concatenation into an ordered map.
///
/// `exists[i]` says whether the argument `input_files_command[i]` names
/// a file already checked on disk by the caller.  An existing file is
/// keyed by its position; an argument of the form `key=file` is keyed
/// by `key`, and its file is appended to the returned list of names the
/// caller must still check.  A named file without a `.wav` extension is
/// the extension error; an argument that neither exists nor has the
/// `key=file` form is the not-found error, carrying the argument.
pub fn parse_input_files(input_files_command: &Vec<String>, exists: &Vec<bool>) -> (r: Result<
    (indexmap::IndexMap<String, String>, Vec<String>),
    SigenError,
>)
    requires
        exists@.len() == input_files_command@.len(),
    ensures
        ({
            let items = input_files_command.deep_view();
            let exs = exists@;
            match r {
                Ok(t) => items.len() >= 1 && spec_parse_inputs(items, exs, items.len() as int)
                    == Some((imap_entries(t.0), t.1.deep_view())),
                Err(e) => match e {
                    SigenError::NoInputFiles => items.len() == 0,
                    SigenError::NotWavFile { filename } => !spec_is_wav_file(filename@) && (
                    exists|j: int|
                        0 <= j < items.len() && spec_parse_inputs(items, exs, j) is Some
                            && spec_input_step(
                            spec_parse_inputs(items, exs, j)->Some_0,
                            items[j],
                            exs[j],
                            j,
                        ) is None && filename@ == spec_checked_name(#[trigger] items[j], exs[j])),
                    SigenError::FileNotFound { filename } => exists|j: int|
                        0 <= j < items.len() && #[trigger] items[j] == filename@ && !exs[j]
                            && first_index_of(items[j], '=') == -1,
                    _ => false,
                },
            }
        }),
{
    if input_files_command.len() == 0 {
        return Err(SigenError::NoInputFiles);
    }
    let ghost items = input_files_command.deep_view();
    let ghost exs = exists@;
    let mut map: indexmap::IndexMap<String, String> = imap_new();
    let mut checks: Vec<String> = Vec::new();
    let len: usize = input_files_command.len();
    let mut i: usize = 0;
    while i < len
        invariant
            0 <= i <= len,
            len == items.len(),
            items == input_files_command.deep_view(),
            exs == exists@,
            exs.len() == items.len(),
            spec_parse_inputs(items, exs, i as int) == Some(
                (imap_entries(map), checks.deep_view()),
            ),
        decreases len - i,
    {
        let input_str: &String = &input_files_command[i];
        proof {
            assert(items[i as int] == input_str@);
        }
        if exists[i] {
            match crate::fileio::validate_wav_file(input_str.as_str()) {
                Ok(_) => {},
                Err(e) => {
                    proof {
                        assert(spec_parse_inputs(items, exs, i as int) is Some
                            && spec_input_step(
                            spec_parse_inputs(items, exs, i as int)->Some_0,
                            items[i as int],
                            exs[i as int],
                            i as int,
                        ) is None);
                        assert(spec_checked_name(items[i as int], exs[i as int])
                            == input_str@);
                    }
                    return Err(e);
                },
            }
            let key: String = u64_to_string(i as u64);
            imap_insert(&mut map, key, input_str.clone());
        } else {
            match find_first_char(input_str.as_str(), '=') {
                Some(p) => {
                    let slen: usize = input_str.as_str().unicode_len();
                    let key: String = String::from_str(
                        input_str.as_str().substring_char(0, p),
                    );
                    let filename: String = String::from_str(
                        input_str.as_str().substring_char(p + 1, slen),
                    );
                    proof {
                        assert(key@ =~= input_str@.take(p as int));
                        assert(filename@ =~= input_str@.skip(p + 1));
                    }
                    match crate::fileio::validate_wav_file(filename.as_str()) {
                        Ok(_) => {},
                        Err(e) => {
                            proof {
                                assert(spec_parse_inputs(items, exs, i as int) is Some
                                    && spec_input_step(
                                    spec_parse_inputs(items, exs, i as int)->Some_0,
                                    items[i as int],
                                    exs[i as int],
                                    i as int,
                                ) is None);
                                assert(spec_checked_name(items[i as int], exs[i as int])
                                    == filename@);
                            }
                            return Err(e);
                        },
                    }
                    checks.push(filename.clone());
                    imap_insert(&mut map, key, filename);
                    proof {
                        assert(checks.deep_view() =~~= spec_parse_inputs(
                            items,
                            exs,
                            i as int,
                        )->Some_0.1.push(items[i as int].skip(p + 1)));
                    }
                },
                None => {
                    return Err(SigenError::FileNotFound { filename: input_str.clone() });
                },
            }
        }
        i = i + 1;
    }
    proof {
        assert(spec_parse_inputs(items, exs, len as int) == Some(
            (imap_entries(map), checks.deep_view()),
        ));
    }
    Ok((map, checks))
}


/// One planned stretch of output: an input file's samples, or a run of
/// silence of the given duration in nanoseconds.
#[derive(Clone, Debug)]
pub enum CatSegment {
    /// The samples of the named input file.
    File { name: String },
    /// Silence lasting `d` nanoseconds.
    Zeros { d: u64 },
}

/// The view of a segment: a file flag, the file name, and the silence
/// duration.
pub open spec fn seg_view(s: CatSegment) -> (bool, Seq<char>, nat) {
    match s {
        CatSegment::File { name } => (true, name@, 0nat),
        CatSegment::Zeros { d } => (false, Seq::<char>::empty(), d as nat),
    }
}

/// The view of a segment list.
pub open spec fn segs_view(v: Seq<CatSegment>) -> Seq<(bool, Seq<char>, nat)> {
    v.map_values(|s: CatSegment| seg_view(s))
}

/// Whether any command names a key rather than a duration: a command
/// names a key when its first character is not a decimal digit.
pub open spec fn spec_specify_key(cmds: Seq<Seq<char>>) -> bool {
    exists|j: int| 0 <= j < cmds.len() && !is_digit(#[trigger] cmds[j][0])
}

/// Checks whether any command names a key rather than a duration.
pub fn is_specify_key(cat_commands: &Vec<String>) -> (r: bool)
    requires
        forall|j: int|
            0 <= j < cat_commands@.len() ==> #[trigger] cat_commands.deep_view()[j].len() >= 1,
    ensures
        r == spec_specify_key(cat_commands.deep_view()),
{
    let len: usize = cat_commands.len();
    let mut i: usize = 0;
    while i < len
        invariant
            0 <= i <= len,
            len == cat_commands@.len(),
            forall|j: int|
                0 <= j < cat_commands@.len() ==> #[trigger] cat_commands.deep_view()[j].len()
                    >= 1,
            forall|j: int| 0 <= j < i ==> is_digit(#[trigger] cat_commands.deep_view()[j][0]),
        decreases len - i,
    {
        proof {
            assert(cat_commands.deep_view()[i as int] == cat_commands@[i as int]@);
        }
        let c: char = cat_commands[i].as_str().get_char(0);
        if !('0' <= c && c <= '9') {
            return true;
        }
        i = i + 1;
    }
    false
}

/// What one concatenation command contributes: `None` when it is
/// rejected.
///
/// A command starting with a digit is a duration of silence, and while
/// no command names a key, the input file at the command's position is
/// played before the silence; any other command names an input key,
/// whose file is played.
pub open spec fn spec_cat_step(
    es: Seq<(Seq<char>, Seq<char>)>,
    acc: Seq<(bool, Seq<char>, nat)>,
    cmd: Seq<char>,
    flag: bool,
    t: int,
) -> Option<Seq<(bool, Seq<char>, nat)>> {
    if cmd.len() == 0 {
        None
    } else if is_digit(cmd[0]) {
        match crate::processing::gen::spec_parse_duration(cmd) {
            Some(d) => if d <= u64::MAX as nat {
                if t < es.len() && !flag {
                    Some(acc + seq![(true, es[t].1, 0nat), (false, Seq::<char>::empty(), d)])
                } else {
                    Some(acc.push((false, Seq::<char>::empty(), d)))
                }
            } else {
                None
            },
            None => None,
        }
    } else {
        let j = entries_find(es, cmd, 0);
        if j >= 0 {
            Some(acc.push((true, es[j].1, 0nat)))
        } else {
            None
        }
    }
}

/// The plan the first `n` commands build up.
pub open spec fn spec_cat_fold(
    es: Seq<(Seq<char>, Seq<char>)>,
    cmds: Seq<Seq<char>>,
    flag: bool,
    n: int,
) -> Option<Seq<(bool, Seq<char>, nat)>>
    recommends
        0 <= n <= cmds.len(),
    decreases n,
{
    if n <= 0 {
        Some(Seq::empty())
    } else {
        match spec_cat_fold(es, cmds, flag, n - 1) {
            Some(acc) => spec_cat_step(es, acc, cmds[n - 1], flag, n - 1),
            None => None,
        }
    }
}

/// The files at positions `from` and up, each played in order.
pub open spec fn spec_cat_tail(es: Seq<(Seq<char>, Seq<char>)>, from: int) -> Seq<
    (bool, Seq<char>, nat),
> {
    if 0 <= from <= es.len() {
        Seq::new((es.len() - from) as nat, |k: int| (true, es[from + k].1, 0nat))
    } else {
        Seq::empty()
    }
}

/// The whole concatenation plan: without commands, every input file in
/// order; with commands, what the commands build, and then, while no
/// command named a key, the input files the commands did not reach.
pub open spec fn spec_cat_plan(
    es: Seq<(Seq<char>, Seq<char>)>,
    cmds_opt: Option<Seq<Seq<char>>>,
) -> Option<Seq<(bool, Seq<char>, nat)>> {
    match cmds_opt {
        None => Some(spec_cat_tail(es, 0)),
        Some(cmds) => {
            let flag = spec_specify_key(cmds);
            match spec_cat_fold(es, cmds, flag, cmds.len() as int) {
                Some(sv) => if !flag {
                    Some(sv + spec_cat_tail(es, cmds.len() as int))
                } else {
                    Some(sv)
                },
                None => None,
            }
        },
    }
}

/// Plays the files of the map from position `from` on.
fn files_from(map: &indexmap::IndexMap<String, String>, from: usize) -> (r: Vec<CatSegment>)
    requires
        from <= imap_entries(*map).len(),
    ensures
        segs_view(r@) == spec_cat_tail(imap_entries(*map), from as int),
{
    let ghost es = imap_entries(*map);
    let len: usize = imap_len(map);
    let mut r: Vec<CatSegment> = Vec::new();
    let mut i: usize = from;
    while i < len
        invariant
            from <= i <= len,
            es == imap_entries(*map),
            len == es.len(),
            r@.len() == i - from,
            forall|k: int|
                0 <= k < r@.len() ==> #[trigger] seg_view(r@[k]) == (true, es[from + k].1, 0nat),
        decreases len - i,
    {
        let entry: (String, String) = match imap_get_index(map, i) {
            Some(p) => p,
            None => {
                proof {
                    assert(false);
                }
                return r;
            },
        };
        r.push(CatSegment::File { name: entry.1 });
        i = i + 1;
    }
    proof {
        assert(forall|k: int|
            0 <= k < r@.len() ==> #[trigger] segs_view(r@)[k] == seg_view(r@[k]));
        assert(segs_view(r@) =~~= spec_cat_tail(es, from as int));
    }
    r
}

proof fn lemma_segs_view_push(v: Seq<CatSegment>, s: CatSegment)
    ensures
        segs_view(v.push(s)) == segs_view(v).push(seg_view(s)),
{
    assert(segs_view(v.push(s)) =~~= segs_view(v).push(seg_view(s)));
}

proof fn lemma_segs_view_add(a: Seq<CatSegment>, b: Seq<CatSegment>)
    ensures
        segs_view(a + b) == segs_view(a) + segs_view(b),
{
    assert(segs_view(a + b) =~~= segs_view(a) + segs_view(b));
}

/// The cause a rejected concatenation command owes, at position `j`.
pub open spec fn cat_cmd_error(
    es: Seq<(Seq<char>, Seq<char>)>,
    cmds: Seq<Seq<char>>,
    j: int,
    e: SigenError,
) -> bool {
    0 <= j < cmds.len() && match e {
        SigenError::DurationParse { input } => cmds[j] == input@ && cmds[j].len() >= 1
            && is_digit(cmds[j][0]) && !(crate::processing::gen::spec_parse_duration(cmds[j])
            matches Some(d) && d <= u64::MAX as nat),
        SigenError::KeyNotFound { key } => cmds[j] == key@ && cmds[j].len() >= 1 && !is_digit(
            cmds[j][0],
        ) && entries_find(es, cmds[j], 0) == -1,
        _ => false,
    }
}

/// Performs one concatenation command on the plan built so far.
#[verifier::rlimit(100)]
fn cat_command_step(
    input_files: &indexmap::IndexMap<String, String>,
    cmd: &String,
    flag: bool,
    t: usize,
    segments: &mut Vec<CatSegment>,
) -> (r: Result<(), SigenError>)
    requires
        cmd@.len() >= 1,
    ensures
        ({
            let es = imap_entries(*input_files);
            match r {
                Ok(_) => spec_cat_step(es, segs_view(old(segments)@), cmd@, flag, t as int)
                    == Some(segs_view(final(segments)@)),
                Err(e) => spec_cat_step(es, segs_view(old(segments)@), cmd@, flag, t as int)
                    is None && (match e {
                    SigenError::DurationParse { input } => input@ == cmd@ && is_digit(cmd@[0])
                        && !(crate::processing::gen::spec_parse_duration(cmd@) matches Some(d)
                        && d <= u64::MAX as nat),
                    SigenError::KeyNotFound { key } => key@ == cmd@ && !is_digit(cmd@[0])
                        && entries_find(es, cmd@, 0) == -1,
                    _ => false,
                }),
            }
        }),
{
    let ghost es = imap_entries(*input_files);
    let maplen: usize = imap_len(input_files);
    let first: char = cmd.as_str().get_char(0);
    if '0' <= first && first <= '9' {
        let d: u64 = match crate::processing::gen::parse_duration(cmd.as_str()) {
            Ok(d) => d,
            Err(e) => {
                return Err(e);
            },
        };
        if t < maplen && !flag {
            let entry: (String, String) = match imap_get_index(input_files, t) {
                Some(p) => p,
                None => {
                    proof {
                        assert(false);
                    }
                    return Err(SigenError::EmptyCatCommand);
                },
            };
            let ghost before = segments@;
            segments.push(CatSegment::File { name: entry.1 });
            let ghost mid = segments@;
            segments.push(CatSegment::Zeros { d: d });
            proof {
                lemma_segs_view_push(before, mid.last());
                lemma_segs_view_push(mid, segments@.last());
                assert(segs_view(segments@) =~~= segs_view(before) + seq![
                    (true, es[t as int].1, 0nat),
                    (false, Seq::<char>::empty(), d as nat),
                ]);
            }
        } else {
            let ghost before = segments@;
            segments.push(CatSegment::Zeros { d: d });
            proof {
                lemma_segs_view_push(before, segments@.last());
            }
        }
        Ok(())
    } else {
        let f: String = match imap_get(input_files, cmd.as_str()) {
            Some(f) => f,
            None => {
                return Err(SigenError::KeyNotFound { key: cmd.clone() });
            },
        };
        let ghost before = segments@;
        segments.push(CatSegment::File { name: f });
        proof {
            lemma_segs_view_push(before, segments@.last());
        }
        Ok(())
    }
}

/// Everything `parse_cat_commands` owes for its inputs and result.
pub open spec fn cat_plan_post(
    input_files: indexmap::IndexMap<String, String>,
    cat_cmd: Option<Vec<String>>,
    r: Result<Vec<CatSegment>, SigenError>,
) -> bool {
    let es = imap_entries(input_files);
    let cmds_opt = match cat_cmd {
        Some(c) => Some(c.deep_view()),
        None => None,
    };
    match r {
        Ok(v) => spec_cat_plan(es, cmds_opt) == Some(segs_view(v@)),
        Err(e) => match cat_cmd {
            Some(c) => {
                let cmds = c.deep_view();
                match e {
                    SigenError::EmptyCatCommand => exists|j: int|
                        0 <= j < cmds.len() && (#[trigger] cmds[j]).len() == 0,
                    _ => exists|j: int| #[trigger] cat_cmd_error(es, cmds, j, e),
                }
            },
            None => false,
        },
    }
}

/// Turns the parsed inputs and commands of a concatenation into a plan
/// of file and silence segments.
///
/// An empty command is its own error; a duration outside the grammar is
/// the duration error, carrying its text; a key absent from the inputs
/// is the key error, carrying the key.
#[verifier::rlimit(100)]
pub fn parse_cat_commands(
    input_files: indexmap::IndexMap<String, String>,
    cat_cmd: Option<Vec<String>>,
) -> (r: Result<Vec<CatSegment>, SigenError>)
    ensures
        cat_plan_post(input_files, cat_cmd, r),
{
    let cmds: &Vec<String> = match &cat_cmd {
        None => {
            return Ok(files_from(&input_files, 0));
        },
        Some(c) => c,
    };
    let ghost cdv = cat_cmd->Some_0.deep_view();
    proof {
        assert(cdv == cmds.deep_view());
    }
    let clen: usize = cmds.len();
    let mut i: usize = 0;
    while i < clen
        invariant
            0 <= i <= clen,
            clen == cmds@.len(),
            cat_cmd matches Some(cc) && cc == *cmds,
            cdv == cmds.deep_view(),
            forall|j: int| 0 <= j < i ==> (#[trigger] cdv[j]).len() >= 1,
        decreases clen - i,
    {
        proof {
            assert(cdv[i as int] == cmds@[i as int]@);
        }
        if cmds[i].as_str().unicode_len() == 0 {
            proof {
                let ghost gcmds = cat_cmd->Some_0.deep_view();
                assert(0 <= i < gcmds.len() && (gcmds[i as int]).len() == 0);
                assert(cat_plan_post(
                    input_files,
                    cat_cmd,
                    Err::<Vec<CatSegment>, SigenError>(SigenError::EmptyCatCommand),
                ));
            }
            return Err(SigenError::EmptyCatCommand);
        }
        i = i + 1;
    }
    let flag: bool = is_specify_key(cmds);
    let maplen: usize = imap_len(&input_files);
    let ghost es = imap_entries(input_files);
    let mut segments: Vec<CatSegment> = Vec::new();
    let mut t: usize = 0;
    let mut failure: Option<SigenError> = None;
    let ghost mut failidx: int = 0;
    while t < clen
        invariant
            0 <= t <= clen,
            clen == cmds@.len(),
            cat_cmd matches Some(cc) && cc == *cmds,
            cdv == cmds.deep_view(),
            es == imap_entries(input_files),
            maplen == es.len(),
            flag == spec_specify_key(cdv),
            forall|j: int| 0 <= j < clen ==> (#[trigger] cdv[j]).len() >= 1,
            match failure {
                None => spec_cat_fold(es, cdv, flag, t as int) == Some(segs_view(segments@)),
                Some(e) => cat_cmd_error(es, cdv, failidx, e) && !(e
                    is EmptyCatCommand),
            },
        decreases clen - t,
    {
        if failure.is_none() {
            proof {
                assert(cdv[t as int] == cmds@[t as int]@);
            }
            match cat_command_step(&input_files, &cmds[t], flag, t, &mut segments) {
                Ok(_) => {},
                Err(e) => {
                    proof {
                        failidx = t as int;
                        assert(cat_cmd_error(es, cdv, failidx, e));
                    }
                    failure = Some(e);
                },
            }
        }
        t = t + 1;
    }
    match failure {
        Some(e) => {
            proof {
                let ghost gcmds = cat_cmd->Some_0.deep_view();
                assert(cat_cmd_error(es, gcmds, failidx, e));
                assert(cat_plan_post(input_files, cat_cmd, Err::<Vec<CatSegment>, SigenError>(e)));
            }
            return Err(e);
        },
        None => {},
    }
    if !flag {
        let from: usize = if clen > maplen {
            maplen
        } else {
            clen
        };
        let mut tail: Vec<CatSegment> = files_from(&input_files, from);
        proof {
            if clen >= maplen {
                assert(spec_cat_tail(es, maplen as int) =~~= Seq::<(bool, Seq<char>, nat)>::empty());
                assert(spec_cat_tail(es, clen as int) =~~= Seq::<(bool, Seq<char>, nat)>::empty());
            }
        }
        let ghost before = segments@;
        let ghost tailv = tail@;
        segments.append(&mut tail);
        proof {
            lemma_segs_view_add(before, tailv);
        }
    }
    Ok(segments)
}

/// The number of silence samples a duration calls for when appended at
/// a given rate: the duration times the rate, truncated.
pub fn cat_zeros_points(d: u64, fs: u32) -> (r: Option<usize>)
    ensures
        match r {
            Some(p) => p as nat == ((d as nat) * (fs as nat)) / 1_000_000_000,
            None => ((d as nat) * (fs as nat)) / 1_000_000_000 > usize::MAX as nat,
        },
{
    proof {
        assert((d as int) * (fs as int) <= 0xFFFF_FFFF_FFFF_FFFFu64 as int * 0xFFFF_FFFFu32 as int)
            by (nonlinear_arith)
            requires
                0 <= d as int <= 0xFFFF_FFFF_FFFF_FFFFu64 as int,
                0 <= fs as int <= 0xFFFF_FFFFu32 as int,
        ;
    }
    let wide: u128 = ((d as u128) * (fs as u128)) / 1_000_000_000;
    if wide > (usize::MAX as u128) {
        None
    } else {
        Some(wide as usize)
    }
}

} // verus!
