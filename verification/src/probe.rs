//! Reading hardware signals out of what the platform's tools and files
//! say. Running a tool or reading a file happens elsewhere; the functions
//! here take the text that came back and pick the signal from it. Every
//! probe is best effort: text that holds no signal gives `None`.

use vstd::prelude::*;
use vstd::string::*;
use crate::text::{char_views, chars_of, opt_text, split_chars, split_on, string_from_chars};

verus! {

/// Whether a character is white space, as Unicode's `White_Space` property
/// has it.
pub open spec fn is_whitespace(c: char) -> bool {
    let u = c as u32;
    ||| 0x09 <= u <= 0x0d
    ||| u == 0x20
    ||| u == 0x85
    ||| u == 0xa0
    ||| u == 0x1680
    ||| 0x2000 <= u <= 0x200a
    ||| u == 0x2028
    ||| u == 0x2029
    ||| u == 0x202f
    ||| u == 0x205f
    ||| u == 0x3000
}

/// `s` without the white space it starts with.
pub open spec fn trim_start(s: Seq<char>) -> Seq<char>
    decreases s.len(),
{
    if s.len() > 0 && is_whitespace(s[0]) {
        trim_start(s.drop_first())
    } else {
        s
    }
}

/// `s` without the white space it ends with.
pub open spec fn trim_end(s: Seq<char>) -> Seq<char>
    decreases s.len(),
{
    if s.len() > 0 && is_whitespace(s.last()) {
        trim_end(s.drop_last())
    } else {
        s
    }
}

/// `s` without the white space at either end.
pub open spec fn trimmed(s: Seq<char>) -> Seq<char> {
    trim_end(trim_start(s))
}

/// A line without the carriage return that ended it, if one did.
pub open spec fn strip_cr(line: Seq<char>) -> Seq<char> {
    if line.len() > 0 && line.last() == '\r' {
        line.drop_last()
    } else {
        line
    }
}

/// The lines of a text. A line ends with a line feed, or with a carriage
/// return and a line feed; neither belongs to the line. What follows the
/// last line feed is a line too unless it is empty.
pub open spec fn lines_of(s: Seq<char>) -> Seq<Seq<char>> {
    let pieces = split_on(s, '\n');
    let ended = Seq::new((pieces.len() - 1) as nat, |i: int| strip_cr(pieces[i]));
    if pieces.last().len() == 0 {
        ended
    } else {
        ended.push(pieces.last())
    }
}

/// Whether `needle` stands in `hay` at position `at`.
pub open spec fn occurs_at(hay: Seq<char>, at: int, needle: Seq<char>) -> bool {
    0 <= at && at + needle.len() <= hay.len() && hay.subrange(at, at + needle.len()) == needle
}

/// Whether `needle` stands somewhere in `hay`.
pub open spec fn contains_text(hay: Seq<char>, needle: Seq<char>) -> bool {
    exists|at: int| occurs_at(hay, at, needle)
}

/// Whether `hay` begins with `needle`.
pub open spec fn starts_with(hay: Seq<char>, needle: Seq<char>) -> bool {
    occurs_at(hay, 0, needle)
}

/// The first of `candidates` that is there.
pub open spec fn first_some(candidates: Seq<Option<Seq<char>>>) -> Option<Seq<char>>
    decreases candidates.len(),
{
    if candidates.len() == 0 {
        None
    } else if candidates[0] is Some {
        candidates[0]
    } else {
        first_some(candidates.drop_first())
    }
}

/// The character sequence of an optional vector of characters.
pub open spec fn opt_chars(o: Option<Vec<char>>) -> Option<Seq<char>> {
    match o {
        Some(v) => Some(v@),
        None => None,
    }
}

/// Whether a character is white space.
pub fn is_space(c: char) -> (r: bool)
    ensures
        r == is_whitespace(c),
{
    let u: u32 = c as u32;
    (0x09 <= u && u <= 0x0d) || u == 0x20 || u == 0x85 || u == 0xa0 || u == 0x1680 || (0x2000 <= u
        && u <= 0x200a) || u == 0x2028 || u == 0x2029 || u == 0x202f || u == 0x205f || u == 0x3000
}

/// The characters of `s` from `from` up to `to`.
fn copy_range(s: &Vec<char>, from: usize, to: usize) -> (out: Vec<char>)
    requires
        from <= to <= s@.len(),
    ensures
        out@ == s@.subrange(from as int, to as int),
{
    let mut out: Vec<char> = Vec::new();
    let mut i: usize = from;
    while i < to
        invariant
            from <= i <= to,
            to <= s@.len(),
            out@ == s@.subrange(from as int, i as int),
        decreases to - i,
    {
        out.push(s[i]);
        i += 1;
        assert(s@.subrange(from as int, i as int) =~= s@.subrange(from as int, i - 1).push(
            s@[i - 1],
        ));
    }
    out
}

/// A text without the white space at either end.
pub fn trim_chars(s: &Vec<char>) -> (out: Vec<char>)
    ensures
        out@ == trimmed(s@),
{
    let n: usize = s.len();
    let mut start: usize = 0;
    assert(s@.subrange(0, n as int) =~= s@);
    while start < n && is_space(s[start])
        invariant
            start <= n,
            n == s@.len(),
            trim_start(s@) == trim_start(s@.subrange(start as int, n as int)),
        decreases n - start,
    {
        assert(s@.subrange(start as int, n as int).drop_first() =~= s@.subrange(
            start + 1,
            n as int,
        ));
        start += 1;
    }
    assert(trim_start(s@) == s@.subrange(start as int, n as int));
    let mut end: usize = n;
    while end > start && is_space(s[end - 1])
        invariant
            start <= end <= n,
            n == s@.len(),
            trimmed(s@) == trim_end(s@.subrange(start as int, end as int)),
        decreases end,
    {
        assert(s@.subrange(start as int, end as int).drop_last() =~= s@.subrange(
            start as int,
            end - 1,
        ));
        end -= 1;
    }
    copy_range(s, start, end)
}

/// The lines of a text.
pub fn lines(text: &Vec<char>) -> (out: Vec<Vec<char>>)
    ensures
        char_views(out@) == lines_of(text@),
{
    let mut pieces: Vec<Vec<char>> = split_chars(text, '\n');
    let ghost all = split_on(text@, '\n');
    let last: Vec<char> = pieces.pop().unwrap();
    assert(char_views(pieces@) =~= all.drop_last());
    assert(last@ == all.last());
    let mut out: Vec<Vec<char>> = Vec::new();
    let mut i: usize = 0;
    while i < pieces.len()
        invariant
            i <= pieces.len(),
            pieces@.len() == all.len() - 1,
            char_views(pieces@) == all.drop_last(),
            out@.len() == i,
            forall|j: int| 0 <= j < i ==> (#[trigger] out@[j])@ == strip_cr(all[j]),
        decreases pieces.len() - i,
    {
        let piece: &Vec<char> = &pieces[i];
        assert(piece@ == char_views(pieces@)[i as int]);
        let k: usize = piece.len();
        let line: Vec<char> = if k > 0 && piece[k - 1] == '\r' {
            let cut: Vec<char> = copy_range(piece, 0, k - 1);
            assert(piece@.subrange(0, k - 1) =~= piece@.drop_last());
            cut
        } else {
            let whole: Vec<char> = copy_range(piece, 0, k);
            assert(piece@.subrange(0, k as int) =~= piece@);
            whole
        };
        out.push(line);
        i += 1;
    }
    if last.len() > 0 {
        out.push(last);
    }
    assert(char_views(out@) =~= lines_of(text@));
    out
}

/// Whether `needle` stands in `hay` at position `at`.
pub fn matches_at(hay: &Vec<char>, at: usize, needle: &Vec<char>) -> (r: bool)
    ensures
        r == occurs_at(hay@, at as int, needle@),
{
    let m: usize = needle.len();
    let n: usize = hay.len();
    if at > n || m > n - at {
        return false;
    }
    let mut k: usize = 0;
    while k < m
        invariant
            k <= m,
            m == needle@.len(),
            n == hay@.len(),
            at + m <= n,
            forall|j: int| 0 <= j < k ==> hay@[at + j] == needle@[j],
        decreases m - k,
    {
        if hay[at + k] != needle[k] {
            assert(hay@.subrange(at as int, at + m)[k as int] != needle@[k as int]);
            return false;
        }
        k += 1;
    }
    assert(hay@.subrange(at as int, at + m) =~= needle@);
    true
}

/// Whether `needle` stands somewhere in `hay`.
pub fn contains_chars(hay: &Vec<char>, needle: &Vec<char>) -> (r: bool)
    ensures
        r == contains_text(hay@, needle@),
{
    let n: usize = hay.len();
    let mut at: usize = 0;
    while at <= n
        invariant
            at <= n + 1,
            n == hay@.len(),
            forall|j: int| 0 <= j < at ==> !occurs_at(hay@, j, needle@),
        decreases n + 1 - at,
    {
        if matches_at(hay, at, needle) {
            return true;
        }
        if at == n {
            assert forall|j: int| !occurs_at(hay@, j, needle@) by {}
            return false;
        }
        at += 1;
    }
    false
}

/// Whether two texts hold the same characters.
pub fn same_chars(a: &Vec<char>, b: &Vec<char>) -> (r: bool)
    ensures
        r == (a@ == b@),
{
    if a.len() != b.len() {
        return false;
    }
    let r: bool = matches_at(a, 0, b);
    assert(a@.subrange(0, a@.len() as int) =~= a@);
    r
}

/// What `pick` makes of each line.
pub open spec fn each_line(
    lines: Seq<Seq<char>>,
    pick: spec_fn(Seq<char>) -> Option<Seq<char>>,
) -> Seq<Option<Seq<char>>> {
    Seq::new(lines.len(), |i: int| pick(lines[i]))
}

/// The first candidate from position `i` on is the one at `i` if it is
/// there, and the first from `i + 1` on otherwise.
proof fn lemma_first_some_from(c: Seq<Option<Seq<char>>>, i: int)
    requires
        0 <= i < c.len(),
    ensures
        first_some(c.subrange(i, c.len() as int)) == if c[i] is Some {
            c[i]
        } else {
            first_some(c.subrange(i + 1, c.len() as int))
        },
{
    assert(c.subrange(i, c.len() as int).drop_first() =~= c.subrange(i + 1, c.len() as int));
}

/// A text that is something once the white space around it is gone.
pub open spec fn value_in(text: Seq<char>) -> Option<Seq<char>> {
    if trimmed(text).len() > 0 {
        Some(trimmed(text))
    } else {
        None
    }
}

/// A text that is something once the white space around it is gone, and
/// is not the given placeholder.
pub open spec fn value_other_than(text: Seq<char>, placeholder: Seq<char>) -> Option<Seq<char>> {
    if trimmed(text).len() > 0 && trimmed(text) != placeholder {
        Some(trimmed(text))
    } else {
        None
    }
}

/// The lines of a table below its header line.
pub open spec fn rows_of(text: Seq<char>) -> Seq<Seq<char>> {
    if lines_of(text).len() > 0 {
        lines_of(text).drop_first()
    } else {
        lines_of(text)
    }
}

/// The first row of a one-column table that holds a value.
pub open spec fn table_value_in(text: Seq<char>) -> Option<Seq<char>> {
    first_some(each_line(rows_of(text), |l: Seq<char>| value_in(l)))
}

/// The first row of a one-column table that holds a value other than the
/// placeholder.
pub open spec fn table_value_in_other_than(text: Seq<char>, placeholder: Seq<char>) -> Option<
    Seq<char>,
> {
    first_some(each_line(rows_of(text), |l: Seq<char>| value_other_than(l, placeholder)))
}

/// What stands between the first colon of a line and its second, without
/// the white space around it; `None` for a line without a colon.
pub open spec fn field_after_colon(line: Seq<char>) -> Option<Seq<char>> {
    if split_on(line, ':').len() >= 2 {
        Some(trimmed(split_on(line, ':')[1]))
    } else {
        None
    }
}

/// The processor line of a `cpuinfo` text: a line that begins with
/// `Serial` or names a `model name`, and has a colon to read a value
/// after.
pub open spec fn cpuinfo_field(line: Seq<char>) -> Option<Seq<char>> {
    if starts_with(line, "Serial"@) || contains_text(line, "model name"@) {
        field_after_colon(line)
    } else {
        None
    }
}

/// The field of a line that holds `key`.
pub open spec fn keyed_field(line: Seq<char>, key: Seq<char>) -> Option<Seq<char>> {
    if contains_text(line, key) {
        field_after_colon(line)
    } else {
        None
    }
}

/// What stands between the first two double quotes of a line that holds
/// `key`.
pub open spec fn keyed_quoted(line: Seq<char>, key: Seq<char>) -> Option<Seq<char>> {
    if contains_text(line, key) && split_on(line, '"').len() >= 3 {
        Some(split_on(line, '"')[1])
    } else {
        None
    }
}

/// A directory entry that names a disk: one that begins with `ata-` or
/// `nvme-`.
pub open spec fn disk_name(name: Seq<char>) -> Option<Seq<char>> {
    if starts_with(name, "ata-"@) || starts_with(name, "nvme-"@) {
        Some(name)
    } else {
        None
    }
}

/// The characters as a string that is there.
fn some_string(chars: &Vec<char>) -> (r: Option<String>)
    ensures
        opt_text(r) == Some(chars@),
{
    Some(string_from_chars(chars))
}

/// The signal in a text that holds nothing else: the text without the
/// white space around it, unless nothing is left.
pub fn trimmed_value(text: &str) -> (r: Option<String>)
    ensures
        opt_text(r) == value_in(text@),
{
    let t: Vec<char> = trim_chars(&chars_of(text));
    if t.len() > 0 {
        some_string(&t)
    } else {
        None
    }
}

/// The signal in a text that holds nothing else, unless it is the
/// placeholder that stands for no value.
pub fn trimmed_value_other_than(text: &str, placeholder: &str) -> (r: Option<String>)
    ensures
        opt_text(r) == value_other_than(text@, placeholder@),
{
    let t: Vec<char> = trim_chars(&chars_of(text));
    if t.len() > 0 && !same_chars(&t, &chars_of(placeholder)) {
        some_string(&t)
    } else {
        None
    }
}

/// The lines of a table below its header line.
fn rows(text: &str) -> (out: Vec<Vec<char>>)
    ensures
        char_views(out@) == rows_of(text@),
{
    let mut all: Vec<Vec<char>> = lines(&chars_of(text));
    if all.len() > 0 {
        let ghost before = all@;
        all.remove(0);
        assert(char_views(all@) =~= char_views(before).drop_first());
    }
    all
}

/// The value of a one-column table as `wmic` prints it: the first line
/// below the header that is not blank, without the white space around it.
pub fn table_value(text: &str) -> (r: Option<String>)
    ensures
        opt_text(r) == table_value_in(text@),
{
    let all: Vec<Vec<char>> = rows(text);
    let ghost picks = each_line(rows_of(text@), |l: Seq<char>| value_in(l));
    let n: usize = all.len();
    let mut i: usize = 0;
    assert(picks.subrange(0, n as int) =~= picks);
    while i < n
        invariant
            i <= n,
            n == all@.len(),
            picks.len() == n,
            char_views(all@) == rows_of(text@),
            picks == each_line(rows_of(text@), |l: Seq<char>| value_in(l)),
            first_some(picks) == first_some(picks.subrange(i as int, n as int)),
        decreases n - i,
    {
        proof {
            lemma_first_some_from(picks, i as int);
        }
        assert(all@[i as int]@ == char_views(all@)[i as int]);
        let t: Vec<char> = trim_chars(&all[i]);
        if t.len() > 0 {
            return some_string(&t);
        }
        i += 1;
    }
    None
}

/// The value of a one-column table, passing over rows that hold the
/// placeholder.
pub fn table_value_other_than(text: &str, placeholder: &str) -> (r: Option<String>)
    ensures
        opt_text(r) == table_value_in_other_than(text@, placeholder@),
{
    let all: Vec<Vec<char>> = rows(text);
    let skip: Vec<char> = chars_of(placeholder);
    let ghost picks = each_line(
        rows_of(text@),
        |l: Seq<char>| value_other_than(l, placeholder@),
    );
    let n: usize = all.len();
    let mut i: usize = 0;
    assert(picks.subrange(0, n as int) =~= picks);
    while i < n
        invariant
            i <= n,
            n == all@.len(),
            picks.len() == n,
            skip@ == placeholder@,
            char_views(all@) == rows_of(text@),
            picks == each_line(rows_of(text@), |l: Seq<char>| value_other_than(l, placeholder@)),
            first_some(picks) == first_some(picks.subrange(i as int, n as int)),
        decreases n - i,
    {
        proof {
            lemma_first_some_from(picks, i as int);
        }
        assert(all@[i as int]@ == char_views(all@)[i as int]);
        let t: Vec<char> = trim_chars(&all[i]);
        if t.len() > 0 && !same_chars(&t, &skip) {
            return some_string(&t);
        }
        i += 1;
    }
    None
}

/// What stands between the first colon of a line and its second.
fn after_colon(line: &Vec<char>) -> (r: Option<Vec<char>>)
    ensures
        opt_chars(r) == field_after_colon(line@),
{
    let pieces: Vec<Vec<char>> = split_chars(line, ':');
    if pieces.len() >= 2 {
        assert(pieces@[1]@ == char_views(pieces@)[1]);
        Some(trim_chars(&pieces[1]))
    } else {
        None
    }
}

/// The processor signal in the text of `/proc/cpuinfo`: the value of the
/// first line that begins with `Serial` or names a `model name`.
pub fn cpuinfo_value(content: &str) -> (r: Option<String>)
    ensures
        opt_text(r) == first_some(each_line(lines_of(content@), |l: Seq<char>| cpuinfo_field(l))),
{
    let all: Vec<Vec<char>> = lines(&chars_of(content));
    let serial: Vec<char> = chars_of("Serial");
    let model: Vec<char> = chars_of("model name");
    let ghost picks = each_line(lines_of(content@), |l: Seq<char>| cpuinfo_field(l));
    let n: usize = all.len();
    let mut i: usize = 0;
    assert(picks.subrange(0, n as int) =~= picks);
    while i < n
        invariant
            i <= n,
            n == all@.len(),
            picks.len() == n,
            serial@ == "Serial"@,
            model@ == "model name"@,
            char_views(all@) == lines_of(content@),
            picks == each_line(lines_of(content@), |l: Seq<char>| cpuinfo_field(l)),
            first_some(picks) == first_some(picks.subrange(i as int, n as int)),
        decreases n - i,
    {
        proof {
            lemma_first_some_from(picks, i as int);
        }
        assert(all@[i as int]@ == char_views(all@)[i as int]);
        if matches_at(&all[i], 0, &serial) || contains_chars(&all[i], &model) {
            if let Some(value) = after_colon(&all[i]) {
                return some_string(&value);
            }
        }
        i += 1;
    }
    None
}

/// The value of the first line of `text` that holds `key` and has a colon
/// to read a value after, as in the report of `system_profiler`.
pub fn keyed_value(text: &str, key: &str) -> (r: Option<String>)
    ensures
        opt_text(r) == first_some(each_line(lines_of(text@), |l: Seq<char>| keyed_field(l, key@))),
{
    let all: Vec<Vec<char>> = lines(&chars_of(text));
    let wanted: Vec<char> = chars_of(key);
    let ghost picks = each_line(lines_of(text@), |l: Seq<char>| keyed_field(l, key@));
    let n: usize = all.len();
    let mut i: usize = 0;
    assert(picks.subrange(0, n as int) =~= picks);
    while i < n
        invariant
            i <= n,
            n == all@.len(),
            picks.len() == n,
            wanted@ == key@,
            char_views(all@) == lines_of(text@),
            picks == each_line(lines_of(text@), |l: Seq<char>| keyed_field(l, key@)),
            first_some(picks) == first_some(picks.subrange(i as int, n as int)),
        decreases n - i,
    {
        proof {
            lemma_first_some_from(picks, i as int);
        }
        assert(all@[i as int]@ == char_views(all@)[i as int]);
        if contains_chars(&all[i], &wanted) {
            if let Some(value) = after_colon(&all[i]) {
                return some_string(&value);
            }
        }
        i += 1;
    }
    None
}

/// What stands between the first two double quotes of the first line of
/// `text` that holds `key` and has two of them, as in the listing of
/// `ioreg`.
pub fn keyed_quoted_value(text: &str, key: &str) -> (r: Option<String>)
    ensures
        opt_text(r) == first_some(each_line(lines_of(text@), |l: Seq<char>| keyed_quoted(l, key@))),
{
    let all: Vec<Vec<char>> = lines(&chars_of(text));
    let wanted: Vec<char> = chars_of(key);
    let ghost picks = each_line(lines_of(text@), |l: Seq<char>| keyed_quoted(l, key@));
    let n: usize = all.len();
    let mut i: usize = 0;
    assert(picks.subrange(0, n as int) =~= picks);
    while i < n
        invariant
            i <= n,
            n == all@.len(),
            picks.len() == n,
            wanted@ == key@,
            char_views(all@) == lines_of(text@),
            picks == each_line(lines_of(text@), |l: Seq<char>| keyed_quoted(l, key@)),
            first_some(picks) == first_some(picks.subrange(i as int, n as int)),
        decreases n - i,
    {
        proof {
            lemma_first_some_from(picks, i as int);
        }
        assert(all@[i as int]@ == char_views(all@)[i as int]);
        if contains_chars(&all[i], &wanted) {
            let pieces: Vec<Vec<char>> = split_chars(&all[i], '"');
            if pieces.len() >= 3 {
                assert(pieces@[1]@ == char_views(pieces@)[1]);
                return some_string(&pieces[1]);
            }
        }
        i += 1;
    }
    None
}

/// The character sequences of a list of strings, each as a candidate.
pub open spec fn each_name(
    names: Seq<String>,
    pick: spec_fn(Seq<char>) -> Option<Seq<char>>,
) -> Seq<Option<Seq<char>>> {
    Seq::new(names.len(), |i: int| pick(names[i]@))
}

/// The disk signal among the entries of `/dev/disk/by-id`: the first name
/// that begins with `ata-` or `nvme-`, in the order given.
pub fn disk_id_among(names: &Vec<String>) -> (r: Option<String>)
    ensures
        opt_text(r) == first_some(each_name(names@, |s: Seq<char>| disk_name(s))),
{
    let ata: Vec<char> = chars_of("ata-");
    let nvme: Vec<char> = chars_of("nvme-");
    let ghost picks = each_name(names@, |s: Seq<char>| disk_name(s));
    let n: usize = names.len();
    let mut i: usize = 0;
    assert(picks.subrange(0, n as int) =~= picks);
    while i < n
        invariant
            i <= n,
            n == names@.len(),
            picks.len() == n,
            ata@ == "ata-"@,
            nvme@ == "nvme-"@,
            picks == each_name(names@, |s: Seq<char>| disk_name(s)),
            first_some(picks) == first_some(picks.subrange(i as int, n as int)),
        decreases n - i,
    {
        proof {
            lemma_first_some_from(picks, i as int);
        }
        let name: Vec<char> = chars_of(names[i].as_str());
        if matches_at(&name, 0, &ata) || matches_at(&name, 0, &nvme) {
            return some_string(&name);
        }
        i += 1;
    }
    None
}

/// One network interface as the system lists it: its name, and what its
/// address file holds where that could be read.
#[derive(Debug, Clone)]
pub struct NetInterface {
    pub name: String,
    pub address: Option<String>,
}

/// The hardware address of an interface that counts: not the loopback
/// interface, and an address that is neither blank nor all zeros.
pub open spec fn interface_address(interface: NetInterface) -> Option<Seq<char>> {
    match interface.address {
        Some(address) => if interface.name@ != "lo"@ {
            value_other_than(address@, "00:00:00:00:00:00"@)
        } else {
            None
        },
        None => None,
    }
}

/// The network signal among the interfaces under `/sys/class/net`: the
/// address of the first interface that counts, in the order given.
pub fn mac_among(interfaces: &Vec<NetInterface>) -> (r: Option<String>)
    ensures
        opt_text(r) == first_some(
            Seq::new(interfaces@.len(), |i: int| interface_address(interfaces@[i])),
        ),
{
    let lo: Vec<char> = chars_of("lo");
    let ghost picks = Seq::new(interfaces@.len(), |i: int| interface_address(interfaces@[i]));
    let n: usize = interfaces.len();
    let mut i: usize = 0;
    assert(picks.subrange(0, n as int) =~= picks);
    while i < n
        invariant
            i <= n,
            n == interfaces@.len(),
            picks.len() == n,
            lo@ == "lo"@,
            picks == Seq::new(interfaces@.len(), |i: int| interface_address(interfaces@[i])),
            first_some(picks) == first_some(picks.subrange(i as int, n as int)),
        decreases n - i,
    {
        proof {
            lemma_first_some_from(picks, i as int);
        }
        let name: Vec<char> = chars_of(interfaces[i].name.as_str());
        if !same_chars(&name, &lo) {
            if let Some(address) = &interfaces[i].address {
                let found: Option<String> = trimmed_value_other_than(
                    address.as_str(),
                    "00:00:00:00:00:00",
                );
                if found.is_some() {
                    return found;
                }
            }
        }
        i += 1;
    }
    None
}

/// `s` without the run of `c` that it starts with.
pub open spec fn without_leading(s: Seq<char>, c: char) -> Seq<char>
    decreases s.len(),
{
    if s.len() > 0 && s[0] == c {
        without_leading(s.drop_first(), c)
    } else {
        s
    }
}

/// `s` without the run of `c` that it ends with.
pub open spec fn without_trailing(s: Seq<char>, c: char) -> Seq<char>
    decreases s.len(),
{
    if s.len() > 0 && s.last() == c {
        without_trailing(s.drop_last(), c)
    } else {
        s
    }
}

/// `s` without the runs of `c` at either end.
pub open spec fn stripped_of(s: Seq<char>, c: char) -> Seq<char> {
    without_trailing(without_leading(s, c), c)
}

/// A text without the runs of `c` at either end.
pub fn strip_char(s: &Vec<char>, c: char) -> (out: Vec<char>)
    ensures
        out@ == stripped_of(s@, c),
{
    let n: usize = s.len();
    let mut start: usize = 0;
    assert(s@.subrange(0, n as int) =~= s@);
    while start < n && s[start] == c
        invariant
            start <= n,
            n == s@.len(),
            without_leading(s@, c) == without_leading(s@.subrange(start as int, n as int), c),
        decreases n - start,
    {
        assert(s@.subrange(start as int, n as int).drop_first() =~= s@.subrange(
            start + 1,
            n as int,
        ));
        start += 1;
    }
    assert(without_leading(s@, c) == s@.subrange(start as int, n as int));
    let mut end: usize = n;
    while end > start && s[end - 1] == c
        invariant
            start <= end <= n,
            n == s@.len(),
            stripped_of(s@, c) == without_trailing(s@.subrange(start as int, end as int), c),
        decreases end,
    {
        assert(s@.subrange(start as int, end as int).drop_last() =~= s@.subrange(
            start as int,
            end - 1,
        ));
        end -= 1;
    }
    copy_range(s, start, end)
}

/// Whether `c` stands somewhere in `s`.
pub fn has_char(s: &Vec<char>, c: char) -> (r: bool)
    ensures
        r == s@.contains(c),
{
    let mut i: usize = 0;
    while i < s.len()
        invariant
            i <= s.len(),
            forall|j: int| 0 <= j < i ==> s@[j] != c,
        decreases s.len() - i,
    {
        if s[i] == c {
            return true;
        }
        i += 1;
    }
    false
}

/// The adapter address in one line of a comma-separated adapter list:
/// the first column without the white space and the double quotes around
/// it, where it is not empty and holds a hyphen.
pub open spec fn adapter_address(line: Seq<char>) -> Option<Seq<char>> {
    let column = stripped_of(trimmed(split_on(line, ',')[0]), '"');
    if column.len() > 0 && column.contains('-') {
        Some(column)
    } else {
        None
    }
}

/// The network signal in the adapter list that `getmac` prints as CSV:
/// the address in the first line that has one.
pub fn adapter_list_value(text: &str) -> (r: Option<String>)
    ensures
        opt_text(r) == first_some(each_line(lines_of(text@), |l: Seq<char>| adapter_address(l))),
{
    let all: Vec<Vec<char>> = lines(&chars_of(text));
    let ghost picks = each_line(lines_of(text@), |l: Seq<char>| adapter_address(l));
    let n: usize = all.len();
    let mut i: usize = 0;
    assert(picks.subrange(0, n as int) =~= picks);
    while i < n
        invariant
            i <= n,
            n == all@.len(),
            picks.len() == n,
            char_views(all@) == lines_of(text@),
            picks == each_line(lines_of(text@), |l: Seq<char>| adapter_address(l)),
            first_some(picks) == first_some(picks.subrange(i as int, n as int)),
        decreases n - i,
    {
        proof {
            lemma_first_some_from(picks, i as int);
        }
        assert(all@[i as int]@ == char_views(all@)[i as int]);
        let columns: Vec<Vec<char>> = split_chars(&all[i], ',');
        assert(columns@[0]@ == char_views(columns@)[0]);
        let column: Vec<char> = strip_char(&trim_chars(&columns[0]), '"');
        if column.len() > 0 && has_char(&column, '-') {
            return some_string(&column);
        }
        i += 1;
    }
    None
}

/// The pieces of `s` between white-space characters, empty ones included.
pub open spec fn split_at_spaces(s: Seq<char>) -> Seq<Seq<char>>
    decreases s.len(),
{
    if s.len() == 0 {
        seq![Seq::<char>::empty()]
    } else {
        let before = split_at_spaces(s.drop_last());
        if is_whitespace(s.last()) {
            before.push(Seq::<char>::empty())
        } else {
            before.drop_last().push(before.last().push(s.last()))
        }
    }
}

/// Those of `pieces` that are not empty, in order.
pub open spec fn nonempty_among(pieces: Seq<Seq<char>>) -> Seq<Seq<char>>
    decreases pieces.len(),
{
    if pieces.len() == 0 {
        Seq::<Seq<char>>::empty()
    } else if pieces.last().len() > 0 {
        nonempty_among(pieces.drop_last()).push(pieces.last())
    } else {
        nonempty_among(pieces.drop_last())
    }
}

/// The words of a text: its runs of characters that are no white space.
pub open spec fn words_of(s: Seq<char>) -> Seq<Seq<char>> {
    nonempty_among(split_at_spaces(s))
}

/// The words of a text.
pub fn words(text: &Vec<char>) -> (out: Vec<Vec<char>>)
    ensures
        char_views(out@) == words_of(text@),
{
    let n: usize = text.len();
    let mut done: Vec<Vec<char>> = Vec::new();
    let mut piece: Vec<char> = Vec::new();
    let mut i: usize = 0;
    assert(text@.take(0) =~= Seq::<char>::empty());
    assert(split_at_spaces(text@.take(0)).drop_last() =~= Seq::<Seq<char>>::empty());
    assert(char_views(done@) =~= Seq::<Seq<char>>::empty());
    while i < n
        invariant
            i <= n,
            n == text@.len(),
            split_at_spaces(text@.take(i as int)).len() > 0,
            piece@ == split_at_spaces(text@.take(i as int)).last(),
            char_views(done@) == nonempty_among(split_at_spaces(text@.take(i as int)).drop_last()),
        decreases n - i,
    {
        let c: char = text[i];
        let ghost before = split_at_spaces(text@.take(i as int));
        let ghost now = text@.take(i + 1);
        assert(now.drop_last() =~= text@.take(i as int));
        assert(now.last() == c);
        assert(before.drop_last().push(before.last()) =~= before);
        if is_space(c) {
            assert(split_at_spaces(now).drop_last() =~= before);
            if piece.len() > 0 {
                let ghost had = done@;
                done.push(piece);
                assert(char_views(done@) =~= char_views(had).push(before.last()));
            }
            piece = Vec::new();
        } else {
            piece.push(c);
            assert(split_at_spaces(now).drop_last() =~= before.drop_last());
        }
        i += 1;
    }
    assert(text@.take(n as int) =~= text@);
    let ghost all = split_at_spaces(text@);
    assert(all.drop_last().push(all.last()) =~= all);
    if piece.len() > 0 {
        let ghost had = done@;
        done.push(piece);
        assert(char_views(done@) =~= char_views(had).push(all.last()));
    }
    done
}

/// The second word of a line that holds `key`.
pub open spec fn keyed_second_word(line: Seq<char>, key: Seq<char>) -> Option<Seq<char>> {
    if contains_text(line, key) && words_of(line).len() >= 2 {
        Some(words_of(line)[1])
    } else {
        None
    }
}

/// The second word of the first line of `text` that holds `key` and has
/// two words, as the `ether` line in the report of `ifconfig`.
pub fn keyed_word(text: &str, key: &str) -> (r: Option<String>)
    ensures
        opt_text(r) == first_some(
            each_line(lines_of(text@), |l: Seq<char>| keyed_second_word(l, key@)),
        ),
{
    let all: Vec<Vec<char>> = lines(&chars_of(text));
    let wanted: Vec<char> = chars_of(key);
    let ghost picks = each_line(lines_of(text@), |l: Seq<char>| keyed_second_word(l, key@));
    let n: usize = all.len();
    let mut i: usize = 0;
    assert(picks.subrange(0, n as int) =~= picks);
    while i < n
        invariant
            i <= n,
            n == all@.len(),
            picks.len() == n,
            wanted@ == key@,
            char_views(all@) == lines_of(text@),
            picks == each_line(lines_of(text@), |l: Seq<char>| keyed_second_word(l, key@)),
            first_some(picks) == first_some(picks.subrange(i as int, n as int)),
        decreases n - i,
    {
        proof {
            lemma_first_some_from(picks, i as int);
        }
        assert(all@[i as int]@ == char_views(all@)[i as int]);
        if contains_chars(&all[i], &wanted) {
            let found: Vec<Vec<char>> = words(&all[i]);
            if found.len() >= 2 {
                assert(found@[1]@ == char_views(found@)[1]);
                return some_string(&found[1]);
            }
        }
        i += 1;
    }
    None
}

} // verus!
