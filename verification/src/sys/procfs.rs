//! What the files under `/proc/<pid>` say.

use vstd::prelude::*;
use vstd::string::*;
use crate::text;
use crate::text::{chars_of, drop_space, find_char, has_prefix, parse_u32_text, push_decimal, skip_space, to_text, word_end};

verus! {

/// A snapshot of a process's status.
#[derive(Debug, Clone, PartialEq, Eq)]
pub struct ProcStatus {
    /// Command name of the process.
    pub name: String,
    /// Real UID of the process.
    pub uid: u32,
}

/// Why the contents of a status file could not be used.
#[derive(Debug, Clone, Copy, PartialEq, Eq, Structural)]
pub enum ProcStatusError {
    /// The contents lack a usable `Name` or `Uid` line.
    InvalidData,
}

impl ProcStatusError {
    /// The error as a person reads it.
    pub fn message(&self) -> (r: &'static str)
        ensures
            r@ == "proc status missing Name or Uid"@,
    {
        "proc status missing Name or Uid"
    }
}

/// What is known of a process once `line` of its status file has been read,
/// given what was known before.
pub open spec fn with_line(
    line: Seq<char>,
    name: Option<Seq<char>>,
    uid: Option<u32>,
) -> (Option<Seq<char>>, Option<u32>) {
    if text::starts_with(line, "Name:"@) {
        (Some(text::trim(line.skip(5))), uid)
    } else if text::starts_with(line, "Uid:"@) {
        (
            name,
            match text::first_word(line.skip(4)) {
                Some(word) => text::u32_text(word),
                None => None,
            },
        )
    } else {
        (name, uid)
    }
}

/// What the lines say of a process, read from the top until both its name and
/// its UID are known.
pub open spec fn scan(
    lines: Seq<Seq<char>>,
    name: Option<Seq<char>>,
    uid: Option<u32>,
) -> (Option<Seq<char>>, Option<u32>)
    decreases lines.len(),
{
    if lines.len() == 0 {
        (name, uid)
    } else {
        let known = with_line(lines[0], name, uid);
        if known.0 is Some && known.1 is Some {
            known
        } else {
            scan(lines.skip(1), known.0, known.1)
        }
    }
}

/// The name and UID in a status file, where it gives both.
pub open spec fn status_of(content: Seq<char>) -> Option<(Seq<char>, u32)> {
    match scan(text::lines(content), None, None) {
        (Some(name), Some(uid)) => Some((name, uid)),
        _ => None,
    }
}

/// The part of `s` that a pair of indices bounds.
spec fn part(s: Seq<char>, range: Option<(usize, usize)>) -> Option<Seq<char>> {
    match range {
        Some((a, b)) => Some(s.subrange(a as int, b as int)),
        None => None,
    }
}

/// What is known once the line `[from, to)` has been read.
fn read_line(
    content: &str,
    s: &[char],
    from: usize,
    to: usize,
    name: Option<(usize, usize)>,
    uid: Option<u32>,
) -> (r: (Option<(usize, usize)>, Option<u32>))
    requires
        content@ == s@,
        from <= to <= s@.len(),
        name matches Some(range) ==> range.0 <= range.1 <= s@.len(),
    ensures
        r.0 matches Some(range) ==> range.0 <= range.1 <= s@.len(),
        (part(s@, r.0), r.1) == with_line(
            s@.subrange(from as int, to as int),
            part(s@, name),
            uid,
        ),
{
    proof {
        reveal_strlit("Name:");
        reveal_strlit("Uid:");
    }
    let ghost line = s@.subrange(from as int, to as int);
    if has_prefix(s, from, to, "Name:") {
        let start: usize = from + 5;
        assert(line.skip(5) =~= s@.subrange(start as int, to as int));
        let a: usize = skip_space(s, start, to);
        let b: usize = drop_space(s, a, to);
        (Some((a, b)), uid)
    } else if has_prefix(s, from, to, "Uid:") {
        let start: usize = from + 4;
        assert(line.skip(4) =~= s@.subrange(start as int, to as int));
        let a: usize = skip_space(s, start, to);
        if a == to {
            (name, None)
        } else {
            let b: usize = word_end(s, a, to);
            (name, parse_u32_text(content.substring_char(a, b)))
        }
    } else {
        (name, uid)
    }
}

/// Parses the contents of a `/proc/<pid>/status` file.
pub fn parse_proc_status(content: &str) -> (r: Result<ProcStatus, ProcStatusError>)
    ensures
        match r {
            Ok(status) => status_of(content@) == Some((status.name@, status.uid)),
            Err(_) => status_of(content@) is None,
        },
{
    let chars = chars_of(content);
    let s: &[char] = chars.as_slice();
    let mut name: Option<(usize, usize)> = None;
    let mut uid: Option<u32> = None;
    let mut pos: usize = 0;
    assert(s@.skip(0) =~= s@);
    while pos < s.len() && !(name.is_some() && uid.is_some())
        invariant
            s@ == content@,
            pos <= s@.len(),
            name matches Some(range) ==> range.0 <= range.1 <= s@.len(),
            scan(text::lines(content@), None, None) == (if name is Some && uid is Some {
                (part(s@, name), uid)
            } else {
                scan(text::lines(s@.skip(pos as int)), part(s@, name), uid)
            }),
        decreases s@.len() - pos,
    {
        let ghost rest = s@.skip(pos as int);
        assert(rest =~= s@.subrange(pos as int, s@.len() as int));
        proof {
            text::lemma_first_at(rest, '\n');
        }
        let end: usize = find_char(s, pos, s.len(), '\n');
        let stop: usize = if end < s.len() && end > pos && s[end - 1] == '\r' {
            end - 1
        } else {
            end
        };
        let ghost line = s@.subrange(pos as int, stop as int);
        assert(text::lines(rest)[0] =~= line) by {
            if end < s@.len() {
                assert(rest.take(end - pos) =~= s@.subrange(pos as int, end as int));
                assert(text::chop_return(rest.take(end - pos)) =~= line);
            } else {
                assert(rest =~= line);
            }
        }
        let known = read_line(content, s, pos, stop, name, uid);
        name = known.0;
        uid = known.1;
        if end < s.len() {
            assert(rest.skip(end - pos + 1) =~= s@.skip(end + 1));
            assert(text::lines(rest).skip(1) =~= text::lines(s@.skip(end + 1)));
            pos = end + 1;
        } else {
            assert(text::lines(rest).skip(1) =~= Seq::<Seq<char>>::empty());
            assert(s@.skip(end as int) =~= Seq::<char>::empty());
            assert(text::lines(s@.skip(end as int)) =~= Seq::<Seq<char>>::empty());
            pos = end;
        }
    }
    if pos == s.len() {
        assert(s@.skip(pos as int) =~= Seq::<char>::empty());
        assert(text::lines(s@.skip(pos as int)) =~= Seq::<Seq<char>>::empty());
    }
    match (name, uid) {
        (Some((a, b)), Some(uid)) => Ok(
            ProcStatus { name: content.substring_char(a, b).to_owned(), uid },
        ),
        _ => Err(ProcStatusError::InvalidData),
    }
}

/// The path of the directory that procfs keeps for a process.
pub open spec fn proc_dir_text(pid: int) -> Seq<char> {
    "/proc/"@ + text::decimal(pid)
}

/// The path of the directory that procfs keeps for a process: `/proc/<pid>`.
pub fn proc_dir(pid: i32) -> (r: String)
    ensures
        r@ == proc_dir_text(pid as int),
{
    let mut path: String = "/proc/".to_owned();
    push_decimal(&mut path, pid);
    path
}

/// The path of a process's status file: `/proc/<pid>/status`.
pub fn proc_status_path(pid: i32) -> (r: String)
    ensures
        r@ == proc_dir_text(pid as int) + "/status"@,
{
    let mut path: String = proc_dir(pid);
    path.append("/status");
    path
}

/// The path of a process's command line: `/proc/<pid>/cmdline`.
pub fn proc_cmdline_path(pid: i32) -> (r: String)
    ensures
        r@ == proc_dir_text(pid as int) + "/cmdline"@,
{
    let mut path: String = proc_dir(pid);
    path.append("/cmdline");
    path
}

/// `s` without the NUL characters behind it.
pub open spec fn without_final_nuls(s: Seq<char>) -> Seq<char>
    decreases s.len(),
{
    if s.len() > 0 && s.last() == '\0' {
        without_final_nuls(s.drop_last())
    } else {
        s
    }
}

/// A command line as a person reads it: the NUL characters behind it are gone,
/// and each one between two arguments is a space.
pub open spec fn cmdline_text(raw: Seq<char>) -> Seq<char> {
    let kept = without_final_nuls(raw);
    Seq::new(
        kept.len(),
        |i: int|
            if kept[i] == '\0' {
                ' '
            } else {
                kept[i]
            },
    )
}

/// Makes a decoded command line readable.
pub fn join_cmdline(raw: &str) -> (r: String)
    ensures
        r@ == cmdline_text(raw@),
{
    let s = chars_of(raw);
    let mut end: usize = s.len();
    assert(s@.take(s@.len() as int) =~= s@);
    while end > 0 && s[end - 1] == '\0'
        invariant
            end <= s@.len(),
            without_final_nuls(s@.take(end as int)) == without_final_nuls(s@),
        decreases end,
    {
        assert(s@.take(end as int).drop_last() =~= s@.take(end - 1));
        end = end - 1;
    }
    let ghost kept = s@.take(end as int);
    assert(without_final_nuls(s@) == kept);
    let mut out: String = String::new();
    let mut i: usize = 0;
    while i < end
        invariant
            i <= end <= s@.len(),
            kept == s@.take(end as int),
            out@ =~= Seq::new(
                i as nat,
                |j: int|
                    if kept[j] == '\0' {
                        ' '
                    } else {
                        kept[j]
                    },
            ),
        decreases end - i,
    {
        if s[i] == '\0' {
            out.push(' ');
        } else {
            out.push(s[i]);
        }
        i = i + 1;
    }
    out
}

/// The command line that the bytes of a `/proc/<pid>/cmdline` file give.
pub fn read_proc_cmdline(bytes: &[u8]) -> (r: String)
    ensures
        r@ == cmdline_text(text::text_of(bytes@)),
{
    let raw: String = to_text(bytes);
    join_cmdline(raw.as_str())
}

/// A readable command line holds no NUL, and is as long as the command line
/// without the NULs behind it.
pub proof fn law_readable_cmdline_has_no_nul(raw: Seq<char>)
    ensures
        !cmdline_text(raw).contains('\0'),
        cmdline_text(raw).len() == without_final_nuls(raw).len(),
{
}

/// Lines behind others are looked at only where the others leave something
/// unknown.
proof fn lemma_scan_both(
    a: Seq<Seq<char>>,
    b: Seq<Seq<char>>,
    name: Option<Seq<char>>,
    uid: Option<u32>,
)
    requires
        name is None || uid is None,
    ensures
        scan(a + b, name, uid) == ({
            let known = scan(a, name, uid);
            if known.0 is Some && known.1 is Some {
                known
            } else {
                scan(b, known.0, known.1)
            }
        }),
    decreases a.len(),
{
    if a.len() == 0 {
        assert(a + b =~= b);
    } else {
        assert((a + b)[0] == a[0]);
        assert((a + b).skip(1) =~= a.skip(1) + b);
        let known = with_line(a[0], name, uid);
        if known.0 is None || known.1 is None {
            lemma_scan_both(a.skip(1), b, known.0, known.1);
        }
    }
}

/// Whether a line of a status file is about something else than name and UID.
pub open spec fn is_other_line(line: Seq<char>) -> bool {
    !text::starts_with(line, "Name:"@) && !text::starts_with(line, "Uid:"@)
}

/// Lines about something else are passed over.
proof fn lemma_scan_others(others: Seq<Seq<char>>, name: Option<Seq<char>>, uid: Option<u32>)
    requires
        name is None || uid is None,
        forall|i: int| 0 <= i < others.len() ==> is_other_line(#[trigger] others[i]),
    ensures
        scan(others, name, uid) == (name, uid),
    decreases others.len(),
{
    if others.len() > 0 {
        let rest = others.skip(1);
        assert(is_other_line(others[0]));
        assert forall|i: int| 0 <= i < rest.len() implies is_other_line(#[trigger] rest[i]) by {
            assert(rest[i] == others[i + 1]);
        }
        lemma_scan_others(rest, name, uid);
    }
}

/// What stands behind whole lines that give both name and UID changes nothing.
pub proof fn law_text_behind_changes_nothing(content: Seq<char>, more: Seq<char>)
    requires
        content.len() == 0 || content.last() == '\n',
        status_of(content) is Some,
    ensures
        status_of(content + more) == status_of(content),
{
    text::lemma_lines_of_both(content, more);
    lemma_scan_both(text::lines(content), text::lines(more), None, None);
}

/// The line of a status file that gives the name.
pub open spec fn name_line(name: Seq<char>) -> Seq<char> {
    "Name:\t"@ + name
}

/// The line of a status file that gives the UID, with what follows the first
/// number.
pub open spec fn uid_line(uid: u32, tail: Seq<char>) -> Seq<char> {
    "Uid:\t"@ + text::digits(uid as nat) + tail
}

/// What the line that gives the name says.
proof fn lemma_name_line(name: Seq<char>)
    requires
        !name.contains('\n'),
        name.len() > 0 ==> !text::is_space(name[0]) && !text::is_space(name.last()),
    ensures
        text::lines(name_line(name).push('\n')) == seq![name_line(name)],
        with_line(name_line(name), None, None) == (Some(name), None::<u32>),
{
    reveal_strlit("Name:\t");
    reveal_strlit("Name:");
    let line = name_line(name);
    assert(!line.contains('\n')) by {
        assert forall|i: int| 0 <= i < line.len() implies line[i] != '\n' by {
            if i >= 6 {
                assert(line[i] == name[i - 6]);
            }
        }
    }
    text::lemma_one_line(line);
    assert(text::is_space('\r') && text::is_space('\t'));
    assert(line.last() != '\r') by {
        if name.len() > 0 {
            assert(line.last() == name.last());
        }
    }
    assert(line.take(5) =~= "Name:"@);
    let value = line.skip(5);
    assert(value[0] == '\t');
    assert(value.skip(1) =~= name);
    assert(text::trim_start(name) == name);
    assert(text::trim_start(value) == name);
    assert(text::trim_end(name) == name);
}

/// What the line that gives the UID says.
proof fn lemma_uid_line(uid: u32, tail: Seq<char>, name: Option<Seq<char>>)
    requires
        !tail.contains('\n'),
        tail.len() > 0 ==> text::is_space(tail[0]),
    ensures
        text::lines(uid_line(uid, tail).push('\n')).len() == 1,
        with_line(text::lines(uid_line(uid, tail).push('\n'))[0], name, None) == (name, Some(uid)),
{
    reveal_strlit("Uid:\t");
    reveal_strlit("Uid:");
    reveal_strlit("Name:");
    let number = text::digits(uid as nat);
    let line = uid_line(uid, tail);
    text::lemma_digits_are_a_word(uid);
    assert(text::is_space('\n') && text::is_space('\t') && text::is_space('\r'));
    assert(!line.contains('\n')) by {
        assert forall|i: int| 0 <= i < line.len() implies line[i] != '\n' by {
            if 5 <= i < 5 + number.len() {
                assert(line[i] == number[i - 5]);
            } else if i >= 5 + number.len() {
                assert(line[i] == tail[i - 5 - number.len()]);
            }
        }
    }
    text::lemma_one_line(line);
    // A carriage return that ends the line is the end of the tail.
    let rest = text::chop_return(tail);
    let kept = text::chop_return(line);
    assert(kept =~= uid_line(uid, rest)) by {
        if tail.len() > 0 {
            assert(line.last() == tail.last());
        } else {
            assert(line.last() == number.last());
            assert(!text::is_space(number[number.len() - 1]));
        }
    }
    assert(rest.len() > 0 ==> rest[0] == tail[0]);
    assert(kept.take(4) =~= "Uid:"@);
    assert(!text::starts_with(kept, "Name:"@)) by {
        assert(kept.take(5)[0] == 'U');
    }
    let value = kept.skip(4);
    assert(value[0] == '\t');
    assert(value.skip(1) =~= number + rest);
    assert((number + rest)[0] == number[0]);
    assert(!text::is_space(number[0]));
    assert(text::trim_start(number + rest) == number + rest);
    assert(text::trim_start(value) == number + rest);
    text::lemma_leading_word(number, rest);
}

/// A status file is read back: where it gives a name, then other lines, then a
/// UID, the name and the first number of the UID line are what is read, whatever
/// follows.
pub proof fn law_status_is_read_back(
    name: Seq<char>,
    others: Seq<char>,
    uid: u32,
    tail: Seq<char>,
    more: Seq<char>,
)
    requires
        !name.contains('\n'),
        name.len() > 0 ==> !text::is_space(name[0]) && !text::is_space(name.last()),
        others.len() == 0 || others.last() == '\n',
        forall|i: int|
            0 <= i < text::lines(others).len() ==> is_other_line(#[trigger] text::lines(others)[i]),
        !tail.contains('\n'),
        tail.len() > 0 ==> text::is_space(tail[0]),
    ensures
        status_of(
            name_line(name).push('\n') + others + uid_line(uid, tail).push('\n') + more,
        ) == Some((name, uid)),
{
    let a = name_line(name).push('\n');
    let c = uid_line(uid, tail).push('\n');
    lemma_name_line(name);
    lemma_uid_line(uid, tail, Some(name));
    text::lemma_lines_of_both(a, others);
    assert((a + others).last() == '\n');
    text::lemma_lines_of_both(a + others, c);
    let la = text::lines(a);
    let lo = text::lines(others);
    let lc = text::lines(c);
    lemma_scan_both(la + lo, lc, None, None);
    lemma_scan_both(la, lo, None, None);
    assert(la.skip(1) =~= Seq::<Seq<char>>::empty());
    assert(scan(la.skip(1), Some(name), None) == (Some(name), None::<u32>));
    assert(scan(la, None, None) == (Some(name), None::<u32>));
    lemma_scan_others(lo, Some(name), None);
    assert(lc[0] == lc.first());
    assert(scan(lc, Some(name), None) == (Some(name), Some(uid)));
    law_text_behind_changes_nothing(a + others + c, more);
}

/// Each character of a command line stays in its place and as it is, but for a
/// NUL, which is a space; and only the NULs behind the last argument are gone.
pub proof fn law_cmdline_characters_are_kept(raw: Seq<char>, i: int)
    requires
        0 <= i < raw.len(),
    ensures
        cmdline_text(raw).len() <= raw.len(),
        i < cmdline_text(raw).len() && raw[i] != '\0' ==> cmdline_text(raw)[i] == raw[i],
        i < cmdline_text(raw).len() && raw[i] == '\0' ==> cmdline_text(raw)[i] == ' ',
        i >= cmdline_text(raw).len() ==> raw[i] == '\0',
        i == cmdline_text(raw).len() - 1 ==> raw[i] != '\0',
{
    lemma_final_nuls(raw);
}

/// What is left without the final NULs, and what is not.
proof fn lemma_final_nuls(s: Seq<char>)
    ensures
        without_final_nuls(s).len() <= s.len(),
        without_final_nuls(s) == s.take(without_final_nuls(s).len() as int),
        forall|i: int| without_final_nuls(s).len() <= i < s.len() ==> #[trigger] s[i] == '\0',
        without_final_nuls(s).len() > 0 ==> s[without_final_nuls(s).len() - 1] != '\0',
    decreases s.len(),
{
    if s.len() > 0 && s.last() == '\0' {
        let rest = s.drop_last();
        lemma_final_nuls(rest);
        let kept = without_final_nuls(rest);
        assert(s.take(kept.len() as int) =~= rest.take(kept.len() as int));
        assert forall|i: int| kept.len() <= i < s.len() implies #[trigger] s[i] == '\0' by {
            if i < rest.len() {
                assert(rest[i] == '\0');
            }
        }
        assert(kept.len() > 0 ==> s[kept.len() - 1] == rest[kept.len() - 1]);
    } else {
        assert(s.take(s.len() as int) =~= s);
    }
}

/// Two arguments are joined by a space, and the NULs that end the second are
/// gone.
pub proof fn law_arguments_are_joined(first: Seq<char>, second: Seq<char>, nuls: nat)
    requires
        !first.contains('\0'),
        !second.contains('\0'),
        second.len() > 0,
    ensures
        cmdline_text(first.push('\0') + second + Seq::new(nuls, |i: int| '\0')) == first.push(' ')
            + second,
{
    let raw = first.push('\0') + second + Seq::new(nuls, |i: int| '\0');
    let text = cmdline_text(raw);
    let both = first.push(' ') + second;
    lemma_final_nuls(raw);
    let last = both.len() - 1;
    assert(raw[last] == second[second.len() - 1]);
    assert(second.contains(second[second.len() - 1]));
    assert(text.len() == both.len()) by {
        if text.len() > both.len() {
            assert(raw[text.len() - 1] == '\0');
        }
    }
    assert forall|i: int| 0 <= i < both.len() implies text[i] == both[i] by {
        if i < first.len() {
            assert(raw[i] == first[i]);
            assert(first.contains(first[i]));
        } else if i > first.len() {
            assert(raw[i] == second[i - first.len() - 1]);
            assert(second.contains(second[i - first.len() - 1]));
        }
    }
    assert(text =~= both);
}

/// What a line says. Behind `Name:` stands the name, up to the white space around
/// it; behind `Uid:` the UID, which is the first word, and where that is no number
/// the UID is unknown again; other lines say nothing.
pub proof fn law_what_a_line_says(
    value: Seq<char>,
    other: Seq<char>,
    name: Option<Seq<char>>,
    uid: Option<u32>,
)
    requires
        other.len() < 5 || other.take(5) != seq!['N', 'a', 'm', 'e', ':'],
        other.len() < 4 || other.take(4) != seq!['U', 'i', 'd', ':'],
    ensures
        with_line(seq!['N', 'a', 'm', 'e', ':'] + value, name, uid) == (
            Some(text::trim(value)),
            uid,
        ),
        with_line(seq!['U', 'i', 'd', ':'] + value, name, uid).0 == name,
        text::first_word(value) is None ==> with_line(
            seq!['U', 'i', 'd', ':'] + value,
            name,
            uid,
        ).1 is None,
        text::first_word(value) matches Some(word) ==> with_line(
            seq!['U', 'i', 'd', ':'] + value,
            name,
            uid,
        ).1 == text::u32_text(word),
        with_line(other, name, uid) == (name, uid),
{
    reveal_strlit("Name:");
    reveal_strlit("Uid:");
    let named = seq!['N', 'a', 'm', 'e', ':'] + value;
    let owned = seq!['U', 'i', 'd', ':'] + value;
    assert("Name:"@ =~= seq!['N', 'a', 'm', 'e', ':']);
    assert("Uid:"@ =~= seq!['U', 'i', 'd', ':']);
    assert(named.take(5) =~= "Name:"@);
    assert(named.skip(5) =~= value);
    assert(owned.take(4) =~= "Uid:"@);
    assert(owned.skip(4) =~= value);
    assert(!text::starts_with(owned, "Name:"@)) by {
        if owned.len() >= 5 {
            assert(owned.take(5)[0] == 'U');
        }
    }
}

/// What is known is given on from line to line, and reading ends as soon as both
/// name and UID are known.
pub proof fn law_lines_are_read_from_the_top(
    line: Seq<char>,
    rest: Seq<Seq<char>>,
    name: Option<Seq<char>>,
    uid: Option<u32>,
)
    ensures
        ({
            let known = with_line(line, name, uid);
            scan(seq![line] + rest, name, uid) == if known.0 is Some && known.1 is Some {
                known
            } else {
                scan(rest, known.0, known.1)
            }
        }),
        scan(Seq::empty(), name, uid) == (name, uid),
{
    assert((seq![line] + rest).skip(1) =~= rest);
}

/// A file gives a status exactly where its lines give both name and UID, and
/// then it is what they give.
pub proof fn law_a_status_takes_both(content: Seq<char>)
    ensures
        ({
            let known = scan(text::lines(content), None, None);
            &&& known.0 is Some && known.1 is Some ==> status_of(content) == Some(
                (known.0->0, known.1->0),
            )
            &&& known.0 is None || known.1 is None ==> status_of(content) is None
        }),
{
}

/// The directory of a process is the one of its number, so no two share one.
pub proof fn law_processes_have_their_own_directory(pid: i32, other: i32)
    ensures
        proc_dir_text(pid as int) == seq!['/', 'p', 'r', 'o', 'c', '/'] + text::decimal(pid as int),
        proc_dir_text(pid as int) == proc_dir_text(other as int) ==> pid == other,
{
    reveal_strlit("/proc/");
    assert("/proc/"@ =~= seq!['/', 'p', 'r', 'o', 'c', '/']);
    text::law_decimal_is_read_back(pid);
    text::law_decimal_is_read_back(other);
    assert(proc_dir_text(pid as int).skip(6) =~= text::decimal(pid as int));
    assert(proc_dir_text(other as int).skip(6) =~= text::decimal(other as int));
}

/// The files of a process stand in its directory, each under its own name.
pub proof fn law_files_stand_in_the_directory(
    pid: i32,
    dir: String,
    status: String,
    cmdline: String,
)
    requires
        call_ensures(proc_dir, (pid,), dir),
        call_ensures(proc_status_path, (pid,), status),
        call_ensures(proc_cmdline_path, (pid,), cmdline),
    ensures
        status@ == dir@ + seq!['/', 's', 't', 'a', 't', 'u', 's'],
        cmdline@ == dir@ + seq!['/', 'c', 'm', 'd', 'l', 'i', 'n', 'e'],
        dir@.skip(6) == text::decimal(pid as int),
{
    reveal_strlit("/proc/");
    reveal_strlit("/status");
    reveal_strlit("/cmdline");
    assert("/status"@ =~= seq!['/', 's', 't', 'a', 't', 'u', 's']);
    assert("/cmdline"@ =~= seq!['/', 'c', 'm', 'd', 'l', 'i', 'n', 'e']);
    assert(dir@.skip(6) =~= text::decimal(pid as int));
}

} // verus!
