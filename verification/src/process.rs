//! Detecting a running game process: normalising the names to look for,
//! matching a process against them, and reading the platform's process list.

use vstd::prelude::*;
use vstd::utf8::{decode_utf8, valid_utf8};
use crate::text::{
    after_last_of, after_last_of_chars, ascii_lower, ascii_lower_chars, before_first,
    before_first_chars, chars_of, lines, lines_of, non_empty, owned, push_str, str_eq,
    string_of, trim, trim_by, trim_chars, views, Strip, lemma_non_empty,
    lemma_after_last_of_plain, lemma_after_last_of_suffix, lemma_after_last_of_lower,
    lemma_lines_single, lemma_trim_keeps, lemma_before_first_prefix, trim_start_by, trim_end_by, lemma_non_empty_single, is_white_space, strip_cr,
};

verus! {

/// What `String::from_utf8_lossy` gives back for the given bytes.
pub uninterp spec fn lossy_utf8(bytes: Seq<u8>) -> Seq<char>;

/// Calls `String::from_utf8_lossy`. Its result is named by `lossy_utf8`; the one
/// fact stated of it is the documented one, that valid UTF-8 is decoded as it
/// stands. How invalid sequences are replaced is left unsaid.
#[verifier::external_body]
fn decode_lossy(bytes: &[u8]) -> (s: String)
    ensures
        s@ == lossy_utf8(bytes@),
        valid_utf8(bytes@) ==> s@ == decode_utf8(bytes@),
{
    String::from_utf8_lossy(bytes).into_owned()
}

/// `name` without a final `.exe`.
pub open spec fn without_exe(name: Seq<char>) -> Seq<char> {
    if name.len() >= 4 && name.subrange(name.len() - 4, name.len() as int) == ".exe"@ {
        name.take(name.len() - 4)
    } else {
        name
    }
}

/// A name to look for, as the user wrote it, put in the form that processes are
/// compared with: trimmed, unquoted, in ASCII lower case.
pub open spec fn normalized_name(name: Seq<char>) -> Seq<char> {
    ascii_lower(trim_by(trim(name), Strip::Quote))
}

/// The names to look for, normalised, without the empty ones.
pub open spec fn normalized_names(names: Seq<Seq<char>>) -> Seq<Seq<char>> {
    non_empty(names.map_values(|n: Seq<char>| normalized_name(n)))
}

/// The file name of a process path, in ASCII lower case.
pub open spec fn process_base_name(process: Seq<char>) -> Seq<char> {
    ascii_lower(after_last_of(process, seq!['/', '\\']))
}

/// A process matches a name when its file name is the name, with or without
/// the name's `.exe`.
pub open spec fn name_matches(base: Seq<char>, name: Seq<char>) -> bool {
    base == name || base == without_exe(name)
}

pub open spec fn matches_any(process: Seq<char>, names: Seq<Seq<char>>) -> bool {
    exists|i: int| 0 <= i < names.len() && name_matches(process_base_name(process), names[i])
}

/// The process names in the output of `ps -axo comm=`.
pub open spec fn ps_names(stdout: Seq<char>) -> Seq<Seq<char>> {
    non_empty(lines(stdout).map_values(|l: Seq<char>| trim(after_last_of(l, seq!['/']))))
}

/// The process names in the output of `tasklist /FO CSV /NH`: the first
/// column of each line, trimmed and unquoted.
pub open spec fn tasklist_names(stdout: Seq<char>) -> Seq<Seq<char>> {
    non_empty(
        lines(stdout).map_values(|l: Seq<char>| trim_by(trim(before_first(l, ',')), Strip::Quote)),
    )
}

/// `name` without a final `.exe`.
pub fn strip_exe(name: &str) -> (r: &str)
    ensures
        r@ == without_exe(name@),
{
    let n = name.unicode_len();
    if n >= 4 && name.get_char(n - 4) == '.' && name.get_char(n - 3) == 'e' && name.get_char(n - 2)
        == 'x' && name.get_char(n - 1) == 'e' {
        proof {
            reveal_strlit(".exe");
            assert(name@.subrange(n - 4, n as int) =~= ".exe"@);
        }
        name.substring_char(0, n - 4)
    } else {
        proof {
            reveal_strlit(".exe");
            if n >= 4 {
                let tail = name@.subrange(n - 4, n as int);
                if tail == ".exe"@ {
                    assert(tail[0] == '.' && tail[1] == 'e' && tail[2] == 'x' && tail[3] == 'e');
                }
            }
        }
        name
    }
}

/// Normalises the names to look for and leaves out the empty ones.
pub fn normalize_process_names(process_names: Vec<String>) -> (r: Vec<String>)
    ensures
        views(r@) == normalized_names(views(process_names@)),
{
    let ghost mapped = views(process_names@).map_values(|n: Seq<char>| normalized_name(n));
    let mut r: Vec<String> = Vec::new();
    for i in 0..process_names.len()
        invariant
            mapped == views(process_names@).map_values(|n: Seq<char>| normalized_name(n)),
            views(r@) == non_empty(mapped.take(i as int)),
    {
        let chars = chars_of(process_names[i].as_str());
        let trimmed = trim_chars(chars.as_slice(), Strip::WhiteSpace);
        let unquoted = trim_chars(trimmed.as_slice(), Strip::Quote);
        let lower = ascii_lower_chars(unquoted.as_slice());
        assert(mapped.take(i + 1).drop_last() == mapped.take(i as int));
        assert(mapped.take(i + 1).last() == lower@);
        if lower.len() > 0 {
            let s = string_of(lower.as_slice());
            r.push(s);
            assert(views(r@) =~= non_empty(mapped.take(i as int)).push(lower@));
        }
    }
    assert(mapped.take(mapped.len() as int) == mapped);
    r
}

/// Whether a process, given by name or path, is one of the normalised names.
pub fn process_matches(process: &str, normalized_names: &[String]) -> (r: bool)
    ensures
        r == matches_any(process@, views(normalized_names@)),
{
    let chars = chars_of(process);
    let mut seps: Vec<char> = Vec::new();
    seps.push('/');
    seps.push('\\');
    assert(seps@ =~= seq!['/', '\\']);
    let base_chars = after_last_of_chars(chars.as_slice(), seps.as_slice());
    let base_lower = ascii_lower_chars(base_chars.as_slice());
    let base = string_of(base_lower.as_slice());
    let ghost names = views(normalized_names@);
    for i in 0..normalized_names.len()
        invariant
            names == views(normalized_names@),
            base@ == process_base_name(process@),
            forall|k: int| 0 <= k < i ==> !name_matches(base@, #[trigger] names[k]),
    {
        let name = normalized_names[i].as_str();
        if str_eq(base.as_str(), name) || str_eq(base.as_str(), strip_exe(name)) {
            assert(name_matches(process_base_name(process@), names[i as int]));
            return true;
        }
    }
    false
}

/// Whether a process of one of the given names runs, given the process list;
/// with no name left after normalising, the answer is `false` whatever the
/// list holds.
pub fn is_process_running(process_names: Vec<String>, processes: Result<Vec<String>, String>) -> (r:
    Result<bool, String>)
    ensures
        ({
            let names = normalized_names(views(process_names@));
            if names.len() == 0 {
                r == Ok::<bool, String>(false)
            } else {
                match processes {
                    Err(e) => r == Err::<bool, String>(e),
                    Ok(ps) => r == Ok::<bool, String>(
                        exists|i: int| 0 <= i < ps.len() && matches_any(ps[i]@, names),
                    ),
                }
            }
        }),
{
    let normalized = normalize_process_names(process_names);
    if normalized.len() == 0 {
        return Ok(false);
    }
    match processes {
        Err(e) => Err(e),
        Ok(ps) => {
            let ghost names = views(normalized@);
            for i in 0..ps.len()
                invariant
                    names == views(normalized@),
                    names == normalized_names(views(process_names@)),
                    names.len() > 0,
                    processes == Ok::<Vec<String>, String>(ps),
                    forall|k: int| 0 <= k < i ==> !matches_any(#[trigger] ps@[k]@, names),
            {
                if process_matches(ps[i].as_str(), normalized.as_slice()) {
                    assert(matches_any(ps[i as int]@, names));
                    assert(processes->Ok_0 == ps);
                    return Ok(true);
                }
            }
            Ok(false)
        },
    }
}

/// The platforms that the process list distinguishes.
#[derive(Clone, Copy, PartialEq, Eq, Structural)]
pub enum TargetOs {
    Windows,
    MacOs,
    Linux,
    Other,
}

/// A command that lists the running processes.
pub struct ProcessCommand {
    pub program: String,
    pub args: Vec<String>,
}

/// What a finished command reported.
pub struct CommandOutput {
    pub success: bool,
    pub stdout: Vec<u8>,
    pub stderr: Vec<u8>,
}

/// The text of a process list, or of the error that stopped it.
pub open spec fn list_view(r: Result<Vec<String>, String>) -> Result<Seq<Seq<char>>, Seq<char>> {
    match r {
        Ok(v) => Ok(views(v@)),
        Err(e) => Err(e@),
    }
}

/// How a process-listing command's run becomes the list: a command that could
/// not start is reported with the program's name, one that failed with its
/// trimmed error output, and the output of one that succeeded is read by `names`.
pub open spec fn listing_result(
    run: Result<CommandOutput, String>,
    program: Seq<char>,
    names: spec_fn(Seq<char>) -> Seq<Seq<char>>,
) -> Result<Seq<Seq<char>>, Seq<char>> {
    match run {
        Err(e) => Err("failed to run "@ + program + ": "@ + e@),
        Ok(out) => if out.success {
            Ok(names(lossy_utf8(out.stdout@)))
        } else {
            Err(trim(lossy_utf8(out.stderr@)))
        },
    }
}

/// The command that lists processes on `os`, if it has one.
pub fn process_list_command(os: TargetOs) -> (r: Option<ProcessCommand>)
    ensures
        os == TargetOs::Other <==> r is None,
        os == TargetOs::Windows ==> (r matches Some(c) && c.program@ == "tasklist"@ && views(
            c.args@,
        ) == seq!["/FO"@, "CSV"@, "/NH"@]),
        (os == TargetOs::MacOs || os == TargetOs::Linux) ==> (r matches Some(c) && c.program@
            == "ps"@ && views(c.args@) == seq!["-axo"@, "comm="@]),
{
    match os {
        TargetOs::Windows => {
            let mut args: Vec<String> = Vec::new();
            args.push(owned("/FO"));
            args.push(owned("CSV"));
            args.push(owned("/NH"));
            let r = ProcessCommand { program: owned("tasklist"), args };
            assert(views(r.args@) =~= seq!["/FO"@, "CSV"@, "/NH"@]);
            Some(r)
        },
        TargetOs::MacOs | TargetOs::Linux => {
            let mut args: Vec<String> = Vec::new();
            args.push(owned("-axo"));
            args.push(owned("comm="));
            let r = ProcessCommand { program: owned("ps"), args };
            assert(views(r.args@) =~= seq!["-axo"@, "comm="@]);
            Some(r)
        },
        TargetOs::Other => None,
    }
}

fn failed_to_run(program: &str, error: &String) -> (r: String)
    ensures
        r@ == "failed to run "@ + program@ + ": "@ + error@,
{
    let mut r = owned("failed to run ");
    push_str(&mut r, program);
    push_str(&mut r, ": ");
    push_str(&mut r, error.as_str());
    r
}

fn trimmed_text(bytes: &[u8]) -> (r: String)
    ensures
        r@ == trim(lossy_utf8(bytes@)),
{
    let text = decode_lossy(bytes);
    let chars = chars_of(text.as_str());
    let t = trim_chars(chars.as_slice(), Strip::WhiteSpace);
    string_of(t.as_slice())
}

/// The process names in the output of `ps -axo comm=`.
pub fn ps_process_names(stdout: &[u8]) -> (r: Vec<String>)
    ensures
        views(r@) == ps_names(lossy_utf8(stdout@)),
{
    let text = decode_lossy(stdout);
    let chars = chars_of(text.as_str());
    let ls = lines_of(chars.as_slice());
    let mut slash: Vec<char> = Vec::new();
    slash.push('/');
    assert(slash@ =~= seq!['/']);
    let ghost mapped = lines(text@).map_values(|l: Seq<char>| trim(after_last_of(l, seq!['/'])));
    let mut r: Vec<String> = Vec::new();
    for i in 0..ls.len()
        invariant
            ls@.map_values(|l: Vec<char>| l@) == lines(text@),
            slash@ == seq!['/'],
            mapped == lines(text@).map_values(|l: Seq<char>| trim(after_last_of(l, seq!['/']))),
            views(r@) == non_empty(mapped.take(i as int)),
    {
        assert(ls@[i as int]@ == lines(text@)[i as int]);
        let seg = after_last_of_chars(ls[i].as_slice(), slash.as_slice());
        let name = trim_chars(seg.as_slice(), Strip::WhiteSpace);
        assert(mapped.take(i + 1).drop_last() == mapped.take(i as int));
        assert(mapped.take(i + 1).last() == name@);
        if name.len() > 0 {
            r.push(string_of(name.as_slice()));
            assert(views(r@) =~= non_empty(mapped.take(i as int)).push(name@));
        }
    }
    assert(mapped.take(mapped.len() as int) == mapped);
    r
}

/// The process names in the output of `tasklist /FO CSV /NH`.
pub fn tasklist_process_names(stdout: &[u8]) -> (r: Vec<String>)
    ensures
        views(r@) == tasklist_names(lossy_utf8(stdout@)),
{
    let text = decode_lossy(stdout);
    let chars = chars_of(text.as_str());
    let ls = lines_of(chars.as_slice());
    let ghost mapped = lines(text@).map_values(
        |l: Seq<char>| trim_by(trim(before_first(l, ',')), Strip::Quote),
    );
    let mut r: Vec<String> = Vec::new();
    for i in 0..ls.len()
        invariant
            ls@.map_values(|l: Vec<char>| l@) == lines(text@),
            mapped == lines(text@).map_values(
                |l: Seq<char>| trim_by(trim(before_first(l, ',')), Strip::Quote),
            ),
            views(r@) == non_empty(mapped.take(i as int)),
    {
        assert(ls@[i as int]@ == lines(text@)[i as int]);
        let first = before_first_chars(ls[i].as_slice(), ',');
        let trimmed = trim_chars(first.as_slice(), Strip::WhiteSpace);
        let name = trim_chars(trimmed.as_slice(), Strip::Quote);
        assert(mapped.take(i + 1).drop_last() == mapped.take(i as int));
        assert(mapped.take(i + 1).last() == name@);
        if name.len() > 0 {
            r.push(string_of(name.as_slice()));
            assert(views(r@) =~= non_empty(mapped.take(i as int)).push(name@));
        }
    }
    assert(mapped.take(mapped.len() as int) == mapped);
    r
}

/// The process list read from a run of `ps -axo comm=`.
pub fn unix_process_list(run: Result<CommandOutput, String>) -> (r: Result<Vec<String>, String>)
    ensures
        list_view(r) == listing_result(run, "ps"@, |s: Seq<char>| ps_names(s)),
{
    match run {
        Err(e) => Err(failed_to_run("ps", &e)),
        Ok(out) => {
            if !out.success {
                Err(trimmed_text(out.stderr.as_slice()))
            } else {
                Ok(ps_process_names(out.stdout.as_slice()))
            }
        },
    }
}

/// The process list read from a run of `tasklist /FO CSV /NH`.
pub fn tasklist_process_list(run: Result<CommandOutput, String>) -> (r: Result<
    Vec<String>,
    String,
>)
    ensures
        list_view(r) == listing_result(run, "tasklist"@, |s: Seq<char>| tasklist_names(s)),
{
    match run {
        Err(e) => Err(failed_to_run("tasklist", &e)),
        Ok(out) => {
            if !out.success {
                Err(trimmed_text(out.stderr.as_slice()))
            } else {
                Ok(tasklist_process_names(out.stdout.as_slice()))
            }
        },
    }
}

/// The running processes on `os`, read from the run of the command that
/// `process_list_command` gives for it; a platform without such a command has
/// an empty list.
pub fn process_list(os: TargetOs, run: Option<Result<CommandOutput, String>>) -> (r: Result<
    Vec<String>,
    String,
>)
    requires
        os == TargetOs::Other <==> run is None,
    ensures
        os == TargetOs::Other ==> list_view(r) == Ok::<Seq<Seq<char>>, Seq<char>>(Seq::empty()),
        os == TargetOs::Windows ==> list_view(r) == listing_result(
            run->0,
            "tasklist"@,
            |s: Seq<char>| tasklist_names(s),
        ),
        (os == TargetOs::MacOs || os == TargetOs::Linux) ==> list_view(r) == listing_result(
            run->0,
            "ps"@,
            |s: Seq<char>| ps_names(s),
        ),
{
    match run {
        None => {
            let r: Vec<String> = Vec::new();
            assert(views(r@) =~= Seq::empty());
            Ok(r)
        },
        Some(run) => match os {
            TargetOs::Windows => tasklist_process_list(run),
            _ => unix_process_list(run),
        },
    }
}

/// No name looked for is empty.
pub proof fn law_normalized_names_not_empty(names: Seq<Seq<char>>)
    ensures
        forall|i: int|
            0 <= i < normalized_names(names).len() ==> (#[trigger] normalized_names(names)[i]).len()
                > 0,
{
    lemma_non_empty(names.map_values(|n: Seq<char>| normalized_name(n)));
}

/// Each process name read from `ps` is not empty.
pub proof fn law_ps_names_not_empty(stdout: Seq<char>)
    ensures
        forall|i: int| 0 <= i < ps_names(stdout).len() ==> (#[trigger] ps_names(stdout)[i]).len() > 0,
{
    lemma_non_empty(lines(stdout).map_values(|l: Seq<char>| trim(after_last_of(l, seq!['/']))));
}

/// Each process name read from `tasklist` is not empty.
pub proof fn law_tasklist_names_not_empty(stdout: Seq<char>)
    ensures
        forall|i: int|
            0 <= i < tasklist_names(stdout).len() ==> (#[trigger] tasklist_names(stdout)[i]).len()
                > 0,
{
    lemma_non_empty(
        lines(stdout).map_values(|l: Seq<char>| trim_by(trim(before_first(l, ',')), Strip::Quote)),
    );
}

/// A process given by its path matches just as its file name does.
pub proof fn law_path_matches_as_file_name(
    dir: Seq<char>,
    sep: char,
    file: Seq<char>,
    names: Seq<Seq<char>>,
)
    requires
        sep == '/' || sep == '\\',
        forall|k: int| 0 <= k < file.len() ==> file[k] != '/' && file[k] != '\\',
    ensures
        matches_any(dir.push(sep) + file, names) == matches_any(file, names),
{
    let seps = seq!['/', '\\'];
    assert forall|k: int| 0 <= k < file.len() implies !seps.contains(file[k]) by {
        if seps.contains(file[k]) {
            let j = choose|j: int| 0 <= j < seps.len() && seps[j] == file[k];
            assert(j == 0 || j == 1);
        }
    }
    assert(seps[0] == '/' && seps[1] == '\\');
    assert(seps.contains(dir.push(sep).last()));
    lemma_after_last_of_suffix(dir.push(sep), file, seps);
    lemma_after_last_of_plain(file, seps);
}

/// A process matches whatever the case of its ASCII letters.
pub proof fn law_matching_ignores_ascii_case(p: Seq<char>, q: Seq<char>, names: Seq<Seq<char>>)
    requires
        ascii_lower(p) == ascii_lower(q),
    ensures
        matches_any(p, names) == matches_any(q, names),
{
    let seps = seq!['/', '\\'];
    assert forall|k: int| 0 <= k < seps.len() implies !('A' <= #[trigger] seps[k] <= 'Z') && !('a'
        <= seps[k] <= 'z') by {
        assert(k == 0 || k == 1);
    }
    lemma_after_last_of_lower(p, seps);
    lemma_after_last_of_lower(q, seps);
    assert(process_base_name(p) == process_base_name(q));
}

/// A name given with `.exe` also matches the process without it.
pub proof fn law_exe_name_matches_bare_process(file: Seq<char>, names: Seq<Seq<char>>, i: int)
    requires
        0 <= i < names.len(),
        names[i] == file + ".exe"@,
        ascii_lower(file) == file,
        forall|k: int| 0 <= k < file.len() ==> file[k] != '/' && file[k] != '\\',
    ensures
        matches_any(file, names),
{
    let seps = seq!['/', '\\'];
    assert forall|k: int| 0 <= k < file.len() implies !seps.contains(file[k]) by {
        if seps.contains(file[k]) {
            let j = choose|j: int| 0 <= j < seps.len() && seps[j] == file[k];
            assert(j == 0 || j == 1);
        }
    }
    lemma_after_last_of_plain(file, seps);
    reveal_strlit(".exe");
    let n = file + ".exe"@;
    assert(n.subrange(n.len() - 4, n.len() as int) =~= ".exe"@);
    assert(n.take(n.len() - 4) =~= file);
    assert(name_matches(process_base_name(file), names[i]));
}

proof fn lemma_without_exe_cases(n: Seq<char>)
    ensures
        without_exe(n) == n || n == without_exe(n) + ".exe"@,
{
    if n.len() >= 4 && n.subrange(n.len() - 4, n.len() as int) == ".exe"@ {
        assert(n =~= n.take(n.len() - 4) + n.subrange(n.len() - 4, n.len() as int));
    }
}

proof fn lemma_without_exe_of_exe(b: Seq<char>)
    ensures
        without_exe(b + ".exe"@) == b,
{
    reveal_strlit(".exe");
    let n = b + ".exe"@;
    assert(n.subrange(n.len() - 4, n.len() as int) =~= ".exe"@);
    assert(n.take(n.len() - 4) =~= b);
}

/// A process matches exactly the names that are its lower-cased file name,
/// with or without a final `.exe`: any such name makes it match, whatever the
/// name ends in, and no other name does.
pub proof fn law_matches_exactly_by_file_name(p: Seq<char>, names: Seq<Seq<char>>)
    ensures
        forall|i: int|
            0 <= i < names.len() && #[trigger] names[i] == process_base_name(p) ==> matches_any(
                p,
                names,
            ),
        forall|i: int|
            0 <= i < names.len() && #[trigger] names[i] == process_base_name(p) + ".exe"@
                ==> matches_any(p, names),
        matches_any(p, names) ==> exists|i: int|
            0 <= i < names.len() && (#[trigger] names[i] == process_base_name(p) || names[i]
                == process_base_name(p) + ".exe"@),
{
    let b = process_base_name(p);
    assert forall|i: int|
        0 <= i < names.len() && #[trigger] names[i] == b + ".exe"@ implies matches_any(p, names) by {
        lemma_without_exe_of_exe(b);
        assert(name_matches(b, names[i]));
    }
    assert forall|i: int|
        0 <= i < names.len() && #[trigger] names[i] == b implies matches_any(p, names) by {
        assert(name_matches(b, names[i]));
    }
    if matches_any(p, names) {
        let i = choose|i: int| 0 <= i < names.len() && name_matches(b, names[i]);
        lemma_without_exe_cases(names[i]);
        assert(names[i] == b || names[i] == b + ".exe"@);
    }
}

/// The file name of a process is the lower-cased text after its last `/` or
/// `\\`, or the whole lower-cased text when it has neither.
pub proof fn law_base_name_is_lowered_file_name(dir: Seq<char>, sep: char, file: Seq<char>)
    requires
        sep == '/' || sep == '\\',
        forall|k: int| 0 <= k < file.len() ==> file[k] != '/' && file[k] != '\\',
    ensures
        process_base_name(dir.push(sep) + file) == ascii_lower(file),
        process_base_name(file) == ascii_lower(file),
{
    let seps = seq!['/', '\\'];
    assert forall|k: int| 0 <= k < file.len() implies !seps.contains(file[k]) by {
        if seps.contains(file[k]) {
            let j = choose|j: int| 0 <= j < seps.len() && seps[j] == file[k];
            assert(j == 0 || j == 1);
        }
    }
    assert(seps[0] == '/' && seps[1] == '\\');
    assert(seps.contains(dir.push(sep).last()));
    lemma_after_last_of_suffix(dir.push(sep), file, seps);
    lemma_after_last_of_plain(file, seps);
}

/// Lowering keeps every character but ASCII capitals, which become the small
/// letter 32 code points on.
pub proof fn law_ascii_lower_chars(s: Seq<char>)
    ensures
        ascii_lower(s).len() == s.len(),
        forall|k: int|
            0 <= k < s.len() ==> (#[trigger] ascii_lower(s)[k]) as u32 == if 'A' <= s[k] <= 'Z' {
                s[k] as u32 + 32
            } else {
                s[k] as u32 as int
            },
{
}

/// `ps` gives one name per line: the whole text after the last `/`, inner
/// spaces included, trimmed; with or without the final line break.
pub proof fn law_ps_reads_whole_name(dir: Seq<char>, name: Seq<char>)
    requires
        name.len() > 0,
        forall|k: int| 0 <= k < name.len() ==> name[k] != '/' && name[k] != '\n',
        !is_white_space(name[0]),
        !is_white_space(name.last()),
        forall|k: int| 0 <= k < dir.len() ==> dir[k] != '\n',
        dir.len() == 0 || dir.last() == '/',
    ensures
        ps_names(dir + name) == seq![name],
        ps_names((dir + name).push('\n')) == seq![name],
{
    let line = dir + name;
    let seps = seq!['/'];
    assert forall|k: int| 0 <= k < name.len() implies !seps.contains(name[k]) by {
        if seps.contains(name[k]) {
            let j = choose|j: int| 0 <= j < seps.len() && seps[j] == name[k];
            assert(j == 0);
        }
    }
    assert forall|k: int| 0 <= k < line.len() implies line[k] != '\n' by {
        if k >= dir.len() {
            assert(line[k] == name[k - dir.len()]);
        }
    }
    if dir.len() == 0 {
        assert(line =~= name);
        lemma_after_last_of_plain(name, seps);
    } else {
        assert(seps[0] == dir.last());
        assert(seps.contains(dir.last()));
        lemma_after_last_of_suffix(dir, name, seps);
    }
    lemma_trim_keeps(name, Strip::WhiteSpace);
    lemma_lines_single(line);
    assert(line.last() == name.last());
    assert(strip_cr(line) == line);
    lemma_non_empty_single(name);
    let f = |l: Seq<char>| trim(after_last_of(l, seq!['/']));
    assert(seq![line].map_values(f) =~= seq![name]);
}

/// `tasklist` gives one name per line: the first column, unquoted, whatever
/// follows the first comma.
pub proof fn law_tasklist_reads_first_column(name: Seq<char>, rest: Seq<char>)
    requires
        name.len() > 0,
        forall|k: int| 0 <= k < name.len() ==> name[k] != ',' && name[k] != '"' && name[k] != '\n',
        !is_white_space(name[0]),
        !is_white_space(name.last()),
        forall|k: int| 0 <= k < rest.len() ==> rest[k] != '\n',
        rest.len() > 0 ==> rest[0] == ',',
    ensures
        ({
            let line = seq!['"'] + name + seq!['"'] + rest;
            &&& tasklist_names(line) == seq![name]
            &&& tasklist_names(line.push('\n')) == seq![name]
        }),
{
    let quoted = seq!['"'] + name + seq!['"'];
    let line = quoted + rest;
    assert forall|k: int| 0 <= k < quoted.len() implies quoted[k] != ',' by {
        if 1 <= k < quoted.len() - 1 {
            assert(quoted[k] == name[k - 1]);
        }
    }
    lemma_before_first_prefix(line, ',', quoted.len() as int);
    assert(line.take(quoted.len() as int) =~= quoted);
    assert(line.skip(quoted.len() as int) =~= rest);
    assert(before_first(line, ',') =~= quoted);
    lemma_trim_keeps(quoted, Strip::WhiteSpace);
    // Unquoting removes the outer quotes and stops at the name.
    assert(quoted.drop_first() =~= name + seq!['"']);
    assert(trim_start_by(name + seq!['"'], Strip::Quote) == name + seq!['"']);
    assert((name + seq!['"']).drop_last() =~= name);
    assert(trim_end_by(name, Strip::Quote) == name);
    assert(trim_by(quoted, Strip::Quote) == name);
    assert forall|k: int| 0 <= k < line.len() implies line[k] != '\n' by {
        if k >= quoted.len() {
            assert(line[k] == rest[k - quoted.len()]);
        } else if 1 <= k < quoted.len() - 1 {
            assert(quoted[k] == name[k - 1]);
        }
    }
    lemma_lines_single(line);
    if rest.len() > 0 {
        assert(line.last() == rest.last());
        assert(strip_cr(line) == line || strip_cr(line) == line.drop_last());
        assert(line.drop_last() =~= quoted + rest.drop_last());
        lemma_before_first_prefix(line.drop_last(), ',', quoted.len() as int);
        assert(line.drop_last().take(quoted.len() as int) =~= quoted);
        assert(line.drop_last().skip(quoted.len() as int) =~= rest.drop_last());
        if rest.len() > 1 {
            assert(rest.drop_last()[0] == ',');
        }
    } else {
        assert(line =~= quoted);
    }
    assert(before_first(strip_cr(line), ',') == quoted);
    lemma_non_empty_single(name);
    let f = |l: Seq<char>| trim_by(trim(before_first(l, ',')), Strip::Quote);
    assert(seq![line].map_values(f) =~= seq![name]);
    assert(seq![strip_cr(line)].map_values(f) =~= seq![name]);
}

} // verus!
