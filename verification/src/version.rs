//! Dotted version strings and the update check built on them.

use vstd::prelude::*;
use crate::text::{char_views, chars_of, clone_strings, split_chars, split_on};

verus! {

/// Whether a character is a decimal digit.
pub open spec fn is_digit(c: char) -> bool {
    '0' <= c && c <= '9'
}

/// The value of a decimal digit.
pub open spec fn digit_value(c: char) -> nat {
    (c as u32 - '0' as u32) as nat
}

/// Whether every character is a decimal digit.
pub open spec fn all_digits(s: Seq<char>) -> bool {
    forall|i: int| 0 <= i < s.len() ==> is_digit(#[trigger] s[i])
}

/// The number that a run of decimal digits writes.
pub open spec fn decimal_value(s: Seq<char>) -> nat
    decreases s.len(),
{
    if s.len() == 0 {
        0
    } else {
        decimal_value(s.drop_last()) * 10 + digit_value(s.last())
    }
}

/// What is left of a number's text once one leading `+` is taken off.
pub open spec fn unsigned_digits(s: Seq<char>) -> Seq<char> {
    if s.len() > 0 && s[0] == '+' {
        s.subrange(1, s.len() as int)
    } else {
        s
    }
}

/// A version component as a 32-bit number: an optional `+`, then one or more
/// decimal digits whose value fits. Anything else is no number.
pub open spec fn parse_component(s: Seq<char>) -> Option<u32> {
    let digits = unsigned_digits(s);
    if digits.len() > 0 && all_digits(digits) && decimal_value(digits) <= u32::MAX {
        Some(decimal_value(digits) as u32)
    } else {
        None
    }
}

/// The numbers among `pieces`, in order; pieces that are no number are
/// passed over.
pub open spec fn numbers_among(pieces: Seq<Seq<char>>) -> Seq<u32>
    decreases pieces.len(),
{
    if pieces.len() == 0 {
        Seq::<u32>::empty()
    } else {
        let before = numbers_among(pieces.drop_last());
        match parse_component(pieces.last()) {
            Some(v) => before.push(v),
            None => before,
        }
    }
}

/// The numeric components of a dotted version string.
pub open spec fn version_numbers(s: Seq<char>) -> Seq<u32> {
    numbers_among(split_on(s, '.'))
}

/// Component `i` of a version, zero where the version has fewer components.
pub open spec fn component_at(parts: Seq<u32>, i: int) -> u32 {
    if 0 <= i < parts.len() {
        parts[i]
    } else {
        0
    }
}

/// Whether `latest` is ahead of `current` on the first three components,
/// the earlier component deciding.
pub open spec fn is_newer(current: Seq<u32>, latest: Seq<u32>) -> bool {
    let c0 = component_at(current, 0);
    let c1 = component_at(current, 1);
    let c2 = component_at(current, 2);
    let l0 = component_at(latest, 0);
    let l1 = component_at(latest, 1);
    let l2 = component_at(latest, 2);
    l0 > c0 || (l0 == c0 && (l1 > c1 || (l1 == c1 && l2 > c2)))
}

/// A run of digits writes no smaller a number than any of its prefixes.
proof fn lemma_decimal_value_prefix(s: Seq<char>, k: int)
    requires
        0 <= k <= s.len(),
    ensures
        decimal_value(s.take(k)) <= decimal_value(s),
    decreases s.len() - k,
{
    if k == s.len() {
        assert(s.take(k) =~= s);
    } else {
        lemma_decimal_value_prefix(s, k + 1);
        assert(s.take(k + 1).drop_last() =~= s.take(k));
    }
}

/// Reads one version component.
pub fn parse_u32(piece: &Vec<char>) -> (r: Option<u32>)
    ensures
        r == parse_component(piece@),
{
    let n: usize = piece.len();
    let start: usize = if n > 0 && piece[0] == '+' { 1 } else { 0 };
    let ghost digits = unsigned_digits(piece@);
    assert(digits =~= piece@.subrange(start as int, n as int));
    if start == n {
        return None;
    }
    let mut acc: u32 = 0;
    let mut i: usize = start;
    while i < n
        invariant
            start <= i <= n,
            n == piece@.len(),
            digits == piece@.subrange(start as int, n as int),
            digits == unsigned_digits(piece@),
            all_digits(digits.take(i - start)),
            acc == decimal_value(digits.take(i - start)),
        decreases n - i,
    {
        let c: char = piece[i];
        let ghost upto = digits.take(i - start + 1);
        assert(upto.drop_last() =~= digits.take(i - start));
        assert(upto.last() == c);
        if !('0' <= c && c <= '9') {
            assert(!is_digit(digits[i - start]));
            return None;
        }
        let d: u32 = (c as u32) - ('0' as u32);
        proof {
            lemma_decimal_value_prefix(digits, i - start + 1);
        }
        if acc > (u32::MAX - d) / 10 {
            assert(decimal_value(upto) > u32::MAX);
            return None;
        }
        acc = acc * 10 + d;
        i += 1;
        assert forall|j: int| 0 <= j < upto.len() implies is_digit(#[trigger] upto[j]) by {
            if j < upto.len() - 1 {
                assert(upto[j] == digits.take(i - 1 - start)[j]);
            }
        }
    }
    assert(digits.take(n - start) =~= digits);
    Some(acc)
}

/// The numeric components of a dotted version string, in order.
pub fn parse_version(v: &str) -> (parts: Vec<u32>)
    ensures
        parts@ == version_numbers(v@),
{
    let chars: Vec<char> = chars_of(v);
    let pieces: Vec<Vec<char>> = split_chars(&chars, '.');
    let mut parts: Vec<u32> = Vec::new();
    let mut i: usize = 0;
    assert(char_views(pieces@).take(0) =~= Seq::<Seq<char>>::empty());
    while i < pieces.len()
        invariant
            i <= pieces.len(),
            parts@ == numbers_among(char_views(pieces@).take(i as int)),
        decreases pieces.len() - i,
    {
        assert(char_views(pieces@).take(i + 1).drop_last() =~= char_views(pieces@).take(i as int));
        let parsed: Option<u32> = parse_u32(&pieces[i]);
        if let Some(value) = parsed {
            parts.push(value);
        }
        i += 1;
    }
    assert(char_views(pieces@).take(pieces.len() as int) =~= char_views(pieces@));
    parts
}

/// Component `i` of a version, zero where there is none.
fn component(parts: &Vec<u32>, i: usize) -> (c: u32)
    ensures
        c == component_at(parts@, i as int),
{
    if i < parts.len() {
        parts[i]
    } else {
        0
    }
}

/// Whether `latest` names a newer version than `current`: the first three
/// numeric components are compared in turn, a missing one counting as zero.
pub fn compare_versions(current: &str, latest: &str) -> (newer: bool)
    ensures
        newer == is_newer(version_numbers(current@), version_numbers(latest@)),
{
    let curr: Vec<u32> = parse_version(current);
    let lat: Vec<u32> = parse_version(latest);
    let mut i: usize = 0;
    while i < 3
        invariant
            i <= 3,
            curr@ == version_numbers(current@),
            lat@ == version_numbers(latest@),
            forall|j: int| 0 <= j < i ==> component_at(curr@, j) == component_at(lat@, j),
        decreases 3 - i,
    {
        let c: u32 = component(&curr, i);
        let l: u32 = component(&lat, i);
        if l > c {
            return true;
        }
        if c > l {
            return false;
        }
        i += 1;
    }
    false
}

/// One entry of the published version manifest.
#[derive(Debug, Clone)]
pub struct VersionInfo {
    pub version: String,
    pub note: Vec<String>,
    pub url: String,
}

/// What an update check found.
#[derive(Debug, Clone)]
pub struct UpdateCheckResult {
    pub has_update: bool,
    pub current_version: String,
    pub latest_version: String,
    pub notes: Vec<String>,
    pub download_url: String,
}

/// The result that a manifest whose last entry is `latest` gives against
/// the running version.
pub open spec fn update_matches(
    found: UpdateCheckResult,
    current_version: Seq<char>,
    latest: VersionInfo,
) -> bool {
    &&& found.has_update == is_newer(
        version_numbers(current_version),
        version_numbers(latest.version@),
    )
    &&& found.current_version@ == current_version
    &&& found.latest_version@ == latest.version@
    &&& found.notes@ == latest.note@
    &&& found.download_url@ == latest.url@
}

/// Holds the running version against a fetched manifest. The manifest's
/// last entry is the latest release; an empty manifest is an error.
pub fn check_for_update(current_version: String, versions: &Vec<VersionInfo>) -> (r: Result<
    UpdateCheckResult,
    String,
>)
    ensures
        versions@.len() == 0 ==> r is Err && r->Err_0@ == "No version info"@,
        versions@.len() > 0 ==> r is Ok && update_matches(
            r->Ok_0,
            current_version@,
            versions@.last(),
        ),
{
    if versions.len() == 0 {
        return Err("No version info".to_owned());
    }
    let latest: &VersionInfo = &versions[versions.len() - 1];
    let has_update: bool = compare_versions(current_version.as_str(), latest.version.as_str());
    Ok(
        UpdateCheckResult {
            has_update,
            current_version,
            latest_version: latest.version.clone(),
            notes: clone_strings(&latest.note),
            download_url: latest.url.clone(),
        },
    )
}

} // verus!
