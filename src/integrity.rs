//! Hashing, manifest checksums and the hash that the extension host keeps
//! of the patched IDE agent.
use vstd::prelude::*;

use crate::discovery::group_or_empty;
use crate::matcher::{first_match, group_of, AnchorSet, Fixed};
use crate::step::{fail_view, ok_view, StepResult, StepView};
use crate::text::{cat, cat_str, chars_of, matches_at, occurs_at, replace_first, replace_first_chars, string_of};

verus! {

/// SHA-256 digest of `data`.
pub uninterp spec fn sha256_digest(data: Seq<u8>) -> Seq<u8>;

/// Base64 (standard alphabet, padded) encoding of `data`.
pub uninterp spec fn base64_standard(data: Seq<u8>) -> Seq<char>;

/// Relies on sha2::Sha256::digest: the 32-byte SHA-256 digest.
#[verifier::external_body]
fn sha256(data: &[u8]) -> (r: Vec<u8>)
    ensures
        r@ == sha256_digest(data@),
        r@.len() == 32,
{
    <sha2::Sha256 as sha2::Digest>::digest(data).to_vec()
}

/// Relies on base64::Engine::encode with the STANDARD engine: padded
/// base64 of the bytes.
#[verifier::external_body]
fn base64_encode(data: &[u8]) -> (r: String)
    requires
        data@.len() <= 1024,
    ensures
        r@ == base64_standard(data@),
{
    base64::Engine::encode(&base64::engine::general_purpose::STANDARD, data)
}

pub open spec fn hex_digit(n: int) -> char {
    if n == 0 { '0' } else if n == 1 { '1' } else if n == 2 { '2' } else if n == 3 { '3' }
    else if n == 4 { '4' } else if n == 5 { '5' } else if n == 6 { '6' } else if n == 7 { '7' }
    else if n == 8 { '8' } else if n == 9 { '9' } else if n == 10 { 'a' } else if n == 11 { 'b' }
    else if n == 12 { 'c' } else if n == 13 { 'd' } else if n == 14 { 'e' } else { 'f' }
}

/// Lower-case hexadecimal, two digits per byte.
pub open spec fn hex_lower(b: Seq<u8>) -> Seq<char>
    decreases b.len(),
{
    if b.len() == 0 {
        Seq::empty()
    } else {
        hex_lower(b.drop_last()) + seq![hex_digit(b.last() as int / 16), hex_digit(b.last() as int % 16)]
    }
}

/// `s` without its trailing `=` characters.
pub open spec fn trim_padding(s: Seq<char>) -> Seq<char>
    decreases s.len(),
{
    if s.len() > 0 && s.last() == '=' {
        trim_padding(s.drop_last())
    } else {
        s
    }
}

fn hex_digit_of(n: u8) -> (r: char)
    requires
        n < 16,
    ensures
        r == hex_digit(n as int),
{
    match n {
        0 => '0', 1 => '1', 2 => '2', 3 => '3', 4 => '4', 5 => '5', 6 => '6', 7 => '7',
        8 => '8', 9 => '9', 10 => 'a', 11 => 'b', 12 => 'c', 13 => 'd', 14 => 'e', _ => 'f',
    }
}

/// Lower-case hexadecimal of `b`.
pub fn to_hex(b: &[u8]) -> (r: String)
    ensures
        r@ == hex_lower(b@),
{
    let mut out: Vec<char> = Vec::new();
    let mut i: usize = 0;
    while i < b.len()
        invariant
            i <= b.len(),
            out@ == hex_lower(b@.take(i as int)),
        decreases b.len() - i,
    {
        assert(b@.take(i + 1).drop_last() =~= b@.take(i as int));
        out.push(hex_digit_of(b[i] / 16));
        out.push(hex_digit_of(b[i] % 16));
        i += 1;
        assert(out@ =~= hex_lower(b@.take(i as int)));
    }
    assert(b@.take(i as int) =~= b@);
    string_of(out.as_slice())
}

/// SHA-256 of `data`, as lower-case hexadecimal.
pub fn sha256_hex(data: &[u8]) -> (r: String)
    ensures
        r@ == hex_lower(sha256_digest(data@)),
{
    let d = sha256(data);
    to_hex(d.as_slice())
}

/// SHA-256 of `data`, as base64 without its `=` padding.
pub fn sha256_base64_stripped(data: &[u8]) -> (r: String)
    ensures
        r@ == trim_padding(base64_standard(sha256_digest(data@))),
{
    let d = sha256(data);
    let enc = chars_of(base64_encode(d.as_slice()).as_str());
    let mut n = enc.len();
    assert(enc@.take(n as int) =~= enc@);
    while n > 0 && enc[n - 1] == '='
        invariant
            n <= enc.len(),
            trim_padding(enc@) == trim_padding(enc@.take(n as int)),
        decreases n,
    {
        assert(enc@.take(n as int).drop_last() =~= enc@.take(n - 1));
        n -= 1;
    }
    assert(enc@.take(enc@.len() as int) =~= enc@);
    string_of(&enc[0..n])
}

// ---------------------------------------------------------------------
//  Tab indentation
// ---------------------------------------------------------------------

/// A line with each leading pair of spaces turned into a tab.
pub open spec fn indent_line(l: Seq<char>) -> Seq<char>
    decreases l.len(),
{
    if l.len() >= 2 && l[0] == ' ' && l[1] == ' ' {
        seq!['\t'] + indent_line(l.subrange(2, l.len() as int))
    } else {
        l
    }
}

/// Characters before the first line feed.
pub open spec fn first_line_len(s: Seq<char>) -> nat
    decreases s.len(),
{
    if s.len() == 0 || s[0] == '\n' {
        0
    } else {
        1 + first_line_len(s.drop_first())
    }
}

/// `l` without one trailing carriage return.
pub open spec fn strip_cr(l: Seq<char>) -> Seq<char> {
    if l.len() > 0 && l.last() == '\r' {
        l.drop_last()
    } else {
        l
    }
}

/// The lines of `s` (split at `\n`, a `\r` before it dropped, no empty
/// line after a final `\n`), indented, and joined by `\n`; `first` tells
/// that no line came before.
pub open spec fn indent_lines(s: Seq<char>, first: bool) -> Seq<char>
    decreases s.len(),
{
    if s.len() == 0 {
        Seq::empty()
    } else {
        let sep = if first {
            Seq::empty()
        } else {
            seq!['\n']
        };
        let i = first_line_len(s);
        if i < s.len() {
            sep + indent_line(strip_cr(s.subrange(0, i as int))) + indent_lines(
                s.subrange((i + 1) as int, s.len() as int),
                false,
            )
        } else {
            sep + indent_line(s)
        }
    }
}

proof fn lemma_first_line_len(t: Seq<char>, j: int)
    requires
        0 <= j <= t.len(),
        forall|k: int| 0 <= k < j ==> t[k] != '\n',
        j == t.len() || t[j] == '\n',
    ensures
        first_line_len(t) == j,
    decreases j,
{
    if j > 0 {
        lemma_first_line_len(t.drop_first(), j - 1);
    }
}

fn indent_line_of(l: &[char]) -> (r: Vec<char>)
    ensures
        r@ == indent_line(l@),
{
    let mut out: Vec<char> = Vec::new();
    let mut k: usize = 0;
    assert(l@.subrange(0, l@.len() as int) =~= l@);
    assert(out@ + indent_line(l@) =~= indent_line(l@));
    while l.len() - k >= 2 && l[k] == ' ' && l[k + 1] == ' '
        invariant
            k <= l.len(),
            indent_line(l@) == out@ + indent_line(l@.subrange(k as int, l@.len() as int)),
        decreases l.len() - k,
    {
        let ghost rest = l@.subrange(k as int, l@.len() as int);
        assert(rest.subrange(2, rest.len() as int) =~= l@.subrange(k + 2, l@.len() as int));
        out.push('\t');
        k += 2;
        assert(out@ + indent_line(l@.subrange(k as int, l@.len() as int)) =~= out@.drop_last() + (seq!['\t']
            + indent_line(rest.subrange(2, rest.len() as int))));
    }
    out.extend_from_slice(&l[k..l.len()]);
    out
}

/// Turns two-space indentation into tabs, in leading whitespace only.
pub fn tab_indent(json: &str) -> (r: String)
    ensures
        r@ == indent_lines(json@, true),
{
    let s = chars_of(json);
    let n = s.len();
    let mut out: Vec<char> = Vec::new();
    let mut pos: usize = 0;
    let mut first = true;
    assert(s@.subrange(0, n as int) =~= s@);
    assert(out@ + indent_lines(s@, true) =~= indent_lines(s@, true));
    while pos < n
        invariant
            n == s.len(),
            pos <= n,
            first ==> pos == 0 && out@.len() == 0,
            indent_lines(s@, true) == out@ + indent_lines(s@.subrange(pos as int, n as int), first),
        decreases n - pos,
    {
        let ghost t = s@.subrange(pos as int, n as int);
        let mut j = pos;
        while j < n && s[j] != '\n'
            invariant
                pos <= j <= n,
                n == s.len(),
                forall|k: int| pos <= k < j ==> s@[k] != '\n',
            decreases n - j,
        {
            j += 1;
        }
        proof {
            lemma_first_line_len(t, j - pos);
        }
        if !first {
            out.push('\n');
        }
        if j < n {
            let mut e = j;
            if e > pos && s[e - 1] == '\r' {
                e -= 1;
            }
            assert(s@.subrange(pos as int, e as int) =~= strip_cr(t.subrange(0, j - pos)));
            let ghost before = out@;
            let line = indent_line_of(&s[pos..e]);
            out.extend_from_slice(line.as_slice());
            assert(t.subrange(j - pos + 1, t.len() as int) =~= s@.subrange(j + 1, n as int));
            assert(out@ =~= before + indent_line(strip_cr(t.subrange(0, j - pos))));
            pos = j + 1;
        } else {
            assert(t =~= s@.subrange(pos as int, n as int));
            let line = indent_line_of(&s[pos..n]);
            out.extend_from_slice(line.as_slice());
            pos = n;
        }
        first = false;
        assert(indent_lines(s@, true) == out@ + indent_lines(s@.subrange(pos as int, n as int), first));
    }
    string_of(out.as_slice())
}

// ---------------------------------------------------------------------
//  Manifest checksums
// ---------------------------------------------------------------------

/// One checksum as verified against the file on disk.
pub struct VerifyEntry {
    pub rel_path: String,
    pub expected: String,
    pub actual: String,
    pub matches: bool,
    pub missing: bool,
}

/// Result of checksum verification.
pub struct VerifyResult {
    pub entries: Vec<VerifyEntry>,
    pub all_match: bool,
}

/// What became of one checksum when fixing.
#[derive(PartialEq, Eq, Structural, Clone, Copy, Debug)]
pub enum FixStatus {
    Unchanged,
    Updated,
    Missing,
}

/// One checksum as fixed.
pub struct FixEntry {
    pub rel_path: String,
    pub status: FixStatus,
}

/// Result of fixing the checksums.
pub struct FixChecksumsResult {
    pub entries: Vec<FixEntry>,
    pub changed_count: u32,
}

/// Whether the file's hash `actual` (absent: no such file) agrees with
/// the recorded `expected` one.
pub open spec fn hash_agrees(expected: String, actual: Option<String>) -> bool {
    match actual {
        Some(a) => a@ == expected@,
        None => false,
    }
}

fn same_text(a: &String, b: &String) -> (r: bool)
    ensures
        r == (a@ == b@),
{
    a.eq(b)
}

/// Checks each recorded checksum (`checksums[i]`: path and expected hash)
/// against the hash of the file (`actual[i]`; absent where the file is
/// missing).
pub fn verify_checksums(checksums: &Vec<(String, String)>, actual: &Vec<Option<String>>) -> (r: VerifyResult)
    requires
        checksums.len() == actual.len(),
    ensures
        r.entries.len() == checksums.len(),
        forall|i: int|
            0 <= i < checksums.len() ==> {
                let e = #[trigger] r.entries@[i];
                &&& e.rel_path@ == checksums@[i].0@
                &&& e.expected@ == checksums@[i].1@
                &&& e.missing == (actual@[i] is None)
                &&& e.actual@ == match actual@[i] {
                    Some(a) => a@,
                    None => Seq::empty(),
                }
                &&& e.matches == hash_agrees(checksums@[i].1, actual@[i])
            },
        r.all_match == forall|i: int| 0 <= i < checksums.len() ==> #[trigger] hash_agrees(checksums@[i].1, actual@[i]),
{
    let mut entries: Vec<VerifyEntry> = Vec::new();
    let mut all_match = true;
    let mut i: usize = 0;
    while i < checksums.len()
        invariant
            i <= checksums.len(),
            checksums.len() == actual.len(),
            entries.len() == i,
            forall|j: int|
                0 <= j < i ==> {
                    let e = #[trigger] entries@[j];
                    &&& e.rel_path@ == checksums@[j].0@
                    &&& e.expected@ == checksums@[j].1@
                    &&& e.missing == (actual@[j] is None)
                    &&& e.actual@ == match actual@[j] {
                        Some(a) => a@,
                        None => Seq::empty(),
                    }
                    &&& e.matches == hash_agrees(checksums@[j].1, actual@[j])
                },
            all_match == forall|j: int| 0 <= j < i ==> #[trigger] hash_agrees(checksums@[j].1, actual@[j]),
        decreases checksums.len() - i,
    {
        let (rel_path, expected) = &checksums[i];
        let entry = match &actual[i] {
            Some(a) => {
                let matches = same_text(a, expected);
                VerifyEntry { rel_path: rel_path.clone(), expected: expected.clone(), actual: a.clone(), matches, missing: false }
            },
            None => VerifyEntry {
                rel_path: rel_path.clone(),
                expected: expected.clone(),
                actual: String::new(),
                matches: false,
                missing: true,
            },
        };
        let m = entry.matches;
        assert(m == hash_agrees(checksums@[i as int].1, actual@[i as int]));
        let ghost prev = all_match;
        all_match = all_match && m;
        entries.push(entry);
        i += 1;
        assert(all_match == forall|j: int| 0 <= j < i ==> #[trigger] hash_agrees(checksums@[j].1, actual@[j])) by {
            if all_match {
                assert forall|j: int| 0 <= j < i implies #[trigger] hash_agrees(checksums@[j].1, actual@[j]) by {
                    if j < i - 1 {
                    }
                }
            } else if !m {
                assert(!hash_agrees(checksums@[i - 1].1, actual@[i - 1]));
            } else {
                assert(!prev);
            }
        }
    }
    VerifyResult { entries, all_match }
}

/// Whether every checksum agrees with its file, files that are missing
/// left aside; `None` where there are no checksums.
pub fn checksums_all_match(checksums: &Vec<(String, String)>, actual: &Vec<Option<String>>) -> (r: Option<bool>)
    requires
        checksums.len() == actual.len(),
    ensures
        r == if checksums.len() == 0 {
            None
        } else {
            Some(
                forall|i: int|
                    0 <= i < checksums.len() && (#[trigger] actual@[i]) is Some ==> hash_agrees(
                        checksums@[i].1,
                        actual@[i],
                    ),
            )
        },
{
    if checksums.len() == 0 {
        return None;
    }
    let mut i: usize = 0;
    while i < checksums.len()
        invariant
            i <= checksums.len(),
            checksums.len() == actual.len(),
            forall|j: int|
                0 <= j < i && (#[trigger] actual@[j]) is Some ==> hash_agrees(checksums@[j].1, actual@[j]),
        decreases checksums.len() - i,
    {
        if let Some(a) = &actual[i] {
            if !same_text(a, &checksums[i].1) {
                assert(!hash_agrees(checksums@[i as int].1, actual@[i as int]));
                return Some(false);
            }
        }
        i += 1;
    }
    Some(true)
}

pub open spec fn fix_status(expected: String, actual: Option<String>) -> FixStatus {
    match actual {
        None => FixStatus::Missing,
        Some(a) => if a@ == expected@ {
            FixStatus::Unchanged
        } else {
            FixStatus::Updated
        },
    }
}

/// How many of the first `n` checksums need updating.
pub open spec fn updated_count(checksums: Seq<(String, String)>, actual: Seq<Option<String>>, n: int) -> nat
    decreases n,
{
    if n <= 0 {
        0
    } else {
        updated_count(checksums, actual, n - 1) + if fix_status(checksums[n - 1].1, actual[n - 1])
            == FixStatus::Updated {
            1nat
        } else {
            0nat
        }
    }
}

proof fn lemma_updated_count_bound(checksums: Seq<(String, String)>, actual: Seq<Option<String>>, n: int)
    requires
        n >= 0,
    ensures
        updated_count(checksums, actual, n) <= n,
    decreases n,
{
    if n > 0 {
        lemma_updated_count_bound(checksums, actual, n - 1);
    }
}

/// The status of each checksum once the stale ones are replaced by the
/// files' hashes, and how many were replaced.
pub fn fix_checksums(checksums: &Vec<(String, String)>, actual: &Vec<Option<String>>) -> (r: FixChecksumsResult)
    requires
        checksums.len() == actual.len(),
        checksums.len() <= u32::MAX,
    ensures
        r.entries.len() == checksums.len(),
        forall|i: int|
            0 <= i < checksums.len() ==> (#[trigger] r.entries@[i]).rel_path@ == checksums@[i].0@
                && r.entries@[i].status == fix_status(checksums@[i].1, actual@[i]),
        r.changed_count == updated_count(checksums@, actual@, checksums.len() as int),
{
    let mut entries: Vec<FixEntry> = Vec::new();
    let mut changed: u32 = 0;
    let mut i: usize = 0;
    while i < checksums.len()
        invariant
            i <= checksums.len(),
            checksums.len() == actual.len(),
            checksums.len() <= u32::MAX,
            entries.len() == i,
            forall|j: int|
                0 <= j < i ==> (#[trigger] entries@[j]).rel_path@ == checksums@[j].0@ && entries@[j].status
                    == fix_status(checksums@[j].1, actual@[j]),
            changed == updated_count(checksums@, actual@, i as int),
        decreases checksums.len() - i,
    {
        proof {
            lemma_updated_count_bound(checksums@, actual@, i as int);
        }
        let status = match &actual[i] {
            None => FixStatus::Missing,
            Some(a) => if same_text(a, &checksums[i].1) {
                FixStatus::Unchanged
            } else {
                FixStatus::Updated
            },
        };
        if status == FixStatus::Updated {
            changed += 1;
        }
        entries.push(FixEntry { rel_path: checksums[i].0.clone(), status });
        i += 1;
    }
    FixChecksumsResult { entries, changed_count: changed }
}

// ---------------------------------------------------------------------
//  The extension host's hash of the IDE agent
// ---------------------------------------------------------------------

/// The IDE agent's hash in the extension host's table; group 2 is the hash.
pub const EHP_HASH_ANCHOR: &'static str = r#"(cursor-agent-exec[^}]*dist:\{[^}]*"main\.js":")([a-f0-9]{64})(")"#;

/// Leftmost non-overlapping occurrences of `n` in `h` from position `k`.
pub open spec fn count_from(h: Seq<char>, n: Seq<char>, k: int) -> nat
    decreases h.len() + 1 - k,
{
    if n.len() == 0 || k < 0 || k + n.len() > h.len() {
        0
    } else if occurs_at(h, n, k) {
        1 + count_from(h, n, k + n.len())
    } else {
        count_from(h, n, k + 1)
    }
}

/// Decimal digits of `n`.
pub open spec fn decimal(n: nat) -> Seq<char>
    decreases n,
{
    if n < 10 {
        seq![hex_digit(n as int)]
    } else {
        decimal(n / 10) + seq![hex_digit((n % 10) as int)]
    }
}

fn decimal_of(n: u64) -> (r: Vec<char>)
    ensures
        r@ == decimal(n as nat),
    decreases n,
{
    if n < 10 {
        vec![hex_digit_of(n as u8)]
    } else {
        let mut v = decimal_of(n / 10);
        v.push(hex_digit_of((n % 10) as u8));
        v
    }
}

fn count_of(h: &[char], n: &[char]) -> (r: u64)
    ensures
        r == count_from(h@, n@, 0),
{
    if n.len() == 0 {
        return 0;
    }
    let mut c: u64 = 0;
    let mut k: usize = 0;
    while k <= h.len() && n.len() <= h.len() - k
        invariant
            n.len() > 0,
            c <= k,
            count_from(h@, n@, 0) == c + count_from(h@, n@, k as int),
        decreases h.len() + 1 - k,
    {
        if matches_at(h, n, k) {
            c += 1;
            k += n.len();
        } else {
            k += 1;
        }
    }
    c
}

/// Puts `new_hash` in place of the IDE agent's old hash in the extension
/// host's text `code`. The old hash is the one the hash table holds; where
/// the table is not found, it is `backup_hash`, the hash of the agent's
/// backup (absent: no backup; an error: hashing it failed), which must
/// then occur exactly once.
pub open spec fn spec_replace_ehp_hash(
    code: Seq<char>,
    new_hash: Seq<char>,
    backup_hash: Option<Result<Seq<char>, Seq<char>>>,
) -> (Option<Seq<char>>, StepView) {
    let name = "EHP hash"@;
    match first_match(EHP_HASH_ANCHOR@, code) {
        Ok(Some(c)) => (
            Some(replace_first(code, group_or_empty(c, 2), new_hash)),
            ok_view(name, "Replaced hash in extensionHostProcess.js"@, Seq::empty()),
        ),
        _ => match backup_hash {
            None => (None, fail_view(name, "Cannot find hash map pattern or backup file"@)),
            Some(Err(e)) => (None, fail_view(name, "Failed to hash backup: "@ + e)),
            Some(Ok(old)) => {
                let n = count_from(code, old, 0);
                if n == 1 {
                    (
                        Some(replace_first(code, old, new_hash)),
                        ok_view(name, "Replaced hash via backup comparison"@, Seq::empty()),
                    )
                } else {
                    (None, fail_view(name, "Old hash found "@ + decimal(n) + " time(s) (expected 1)"@))
                }
            },
        },
    }
}

pub open spec fn backup_hash_view(b: Option<Result<String, String>>) -> Option<Result<Seq<char>, Seq<char>>> {
    match b {
        None => None,
        Some(Ok(h)) => Some(Ok(h@)),
        Some(Err(e)) => Some(Err(e@)),
    }
}

pub fn replace_ehp_hash(
    code: &str,
    new_hash: &str,
    backup_hash: &Option<Result<String, String>>,
    anchors: &AnchorSet,
) -> (r: (
    Option<String>,
    StepResult,
))
    ensures
        (r.0.deep_view(), r.1@) == spec_replace_ehp_hash(code@, new_hash@, backup_hash_view(*backup_hash)),
{
    let tc = chars_of(code);
    let nh = chars_of(new_hash);
    if let Some(c) = anchors.get(Fixed::EhpHash).first(code) {
        let old = match group_of(&c, 2) {
            Some(g) => chars_of(g.as_str()),
            None => Vec::new(),
        };
        let new = replace_first_chars(tc.as_slice(), old.as_slice(), nh.as_slice());
        return (Some(string_of(new.as_slice())), StepResult::ok("EHP hash", "Replaced hash in extensionHostProcess.js"));
    }
    match backup_hash {
        None => (None, StepResult::fail("EHP hash", "Cannot find hash map pattern or backup file")),
        Some(Err(e)) => {
            let msg = cat(chars_of("Failed to hash backup: ").as_slice(), chars_of(e.as_str()).as_slice());
            (None, StepResult::fail("EHP hash", string_of(msg.as_slice()).as_str()))
        },
        Some(Ok(old)) => {
            let oc = chars_of(old.as_str());
            let n = count_of(tc.as_slice(), oc.as_slice());
            if n == 1 {
                let new = replace_first_chars(tc.as_slice(), oc.as_slice(), nh.as_slice());
                (Some(string_of(new.as_slice())), StepResult::ok("EHP hash", "Replaced hash via backup comparison"))
            } else {
                let msg = cat_str(
                    cat(chars_of("Old hash found ").as_slice(), decimal_of(n).as_slice()).as_slice(),
                    " time(s) (expected 1)",
                );
                (None, StepResult::fail("EHP hash", string_of(msg.as_slice()).as_str()))
            }
        },
    }
}

} // verus!
