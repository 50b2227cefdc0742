//! Backups: their file names, the entries listed for restoring, and sizes as
//! they are shown.

use vstd::prelude::*;
use crate::stamp::{naive_parse_ok, stamp_shaped, is_digit, STAMP_FORMAT};
use crate::text::{decimal, digit_char};

verus! {

/// One backed-up file.
pub struct BackupEntry {
    /// The name of the file that was backed up, such as `.bashrc`.
    pub original_name: String,
    /// When the backup was made, in microseconds since the Unix epoch.
    pub timestamp: i64,
    /// Where the backup file is.
    pub backup_path: String,
    /// Where the file is restored to.
    pub target_path: String,
    /// The size of the backup file in bytes.
    pub file_size: u64,
}

/// A backup entry as plain values.
pub struct BackupEntryView {
    pub original_name: Seq<char>,
    pub timestamp: int,
    pub backup_path: Seq<char>,
    pub target_path: Seq<char>,
    pub file_size: nat,
}

impl View for BackupEntry {
    type V = BackupEntryView;

    open spec fn view(&self) -> BackupEntryView {
        BackupEntryView {
            original_name: self.original_name@,
            timestamp: self.timestamp as int,
            backup_path: self.backup_path@,
            target_path: self.target_path@,
            file_size: self.file_size as nat,
        }
    }
}

/// The index of the last `c` in `s` before index `end`, if any.
pub open spec fn last_index_before(s: Seq<char>, c: char, end: int) -> Option<int>
    decreases end,
{
    if end <= 0 || end > s.len() {
        None
    } else if s[end - 1] == c {
        Some(end - 1)
    } else {
        last_index_before(s, c, end - 1)
    }
}

/// A backup file name split into the original name and the stamp: the stamp is
/// what follows the second-to-last `_`, the name what precedes it.
pub open spec fn split_backup_name(f: Seq<char>) -> Option<(Seq<char>, Seq<char>)> {
    match last_index_before(f, '_', f.len() as int) {
        None => None,
        Some(i) => match last_index_before(f, '_', i) {
            None => None,
            Some(j) => Some((f.take(j), f.skip(j + 1))),
        },
    }
}

/// The name of the backup of a file named `name` made at `stamp`.
pub open spec fn backup_name(name: Seq<char>, stamp: Seq<char>) -> Seq<char> {
    name + seq!['_'] + stamp
}

/// What reading the backup file name `f` may give: nothing when it does not
/// split into a name and a stamp or the stamp does not parse; otherwise
/// nothing (the local time it names is ambiguous or does not exist) or the
/// name and a time.
pub open spec fn backup_parse(f: Seq<char>, o: Option<(Seq<char>, int)>) -> bool {
    match split_backup_name(f) {
        None => o is None,
        Some((n, s)) => if naive_parse_ok(s, STAMP_FORMAT@) {
            o matches Some((n2, t)) ==> n2 == n
        } else {
            o is None
        },
    }
}

/// `s` holds `c` exactly once.
pub open spec fn holds_once(s: Seq<char>, c: char) -> bool {
    exists|k: int|
        0 <= k < s.len() && s[k] == c && forall|j: int| 0 <= j < s.len() && j != k ==> s[j] != c
}

/// A stamp in the stamp format holds exactly one `_`, between the date and
/// the time; so a backup named with it splits back into the name and the
/// stamp. When the stamp also parses, as a written stamp of a year from 0 to
/// 9999 does, reading the backup's name gives that name, unless the local
/// time it names is ambiguous or does not exist.
pub proof fn lemma_written_stamp_round_trip(name: Seq<char>, stamp: Seq<char>, o: Option<(Seq<char>, int)>)
    requires
        stamp_shaped(stamp),
    ensures
        holds_once(stamp, '_'),
        split_backup_name(backup_name(name, stamp)) == Some((name, stamp)),
        naive_parse_ok(stamp, STAMP_FORMAT@) ==> (backup_parse(backup_name(name, stamp), o) <==> (o is None
            || o->Some_0.0 == name)),
{
    let k = stamp.len() - 14;
    assert forall|j: int| 0 <= j < stamp.len() && j != k implies stamp[j] != '_' by {
        if j == 0 {
        } else if j < k {
            assert(is_digit(stamp[j]));
        } else if j < k + 7 {
            assert(is_digit(stamp[j]));
        } else if j == k + 7 {
        } else {
            assert(is_digit(stamp[j]));
        }
    }
    lemma_backup_name_round_trip(name, stamp);
}

proof fn lemma_last_index_skips(s: Seq<char>, c: char, end: int, k: int)
    requires
        0 <= k < end <= s.len(),
        s[k] == c,
        forall|j: int| k < j < end ==> s[j] != c,
    ensures
        last_index_before(s, c, end) == Some(k),
    decreases end,
{
    if end - 1 != k {
        lemma_last_index_skips(s, c, end - 1, k);
    }
}

proof fn lemma_last_index_bounds(s: Seq<char>, c: char, end: int)
    ensures
        last_index_before(s, c, end) matches Some(k) ==> 0 <= k < end && s[k] == c
            && forall|j: int| k < j < end ==> s[j] != c,
        last_index_before(s, c, end) is None && end <= s.len() ==> forall|j: int|
            0 <= j < end ==> s[j] != c,
    decreases end,
{
    if end > 0 && end <= s.len() && s[end - 1] != c {
        lemma_last_index_bounds(s, c, end - 1);
    }
}

/// A backup name splits back into the name and the stamp it was made from,
/// whenever the stamp holds exactly one `_` (as the stamp format writes it).
pub proof fn lemma_backup_name_round_trip(name: Seq<char>, stamp: Seq<char>)
    requires
        holds_once(stamp, '_'),
    ensures
        split_backup_name(backup_name(name, stamp)) == Some((name, stamp)),
{
    let f = backup_name(name, stamp);
    let k = choose|k: int|
        0 <= k < stamp.len() && stamp[k] == '_' && forall|j: int|
            0 <= j < stamp.len() && j != k ==> stamp[j] != '_';
    let n = name.len() as int;
    assert(f[n] == '_');
    assert(f[n + 1 + k] == '_');
    assert forall|j: int| n + 1 + k < j < f.len() implies f[j] != '_' by {
        assert(f[j] == stamp[j - n - 1]);
    }
    lemma_last_index_skips(f, '_', f.len() as int, n + 1 + k);
    assert forall|j: int| n < j < n + 1 + k implies f[j] != '_' by {
        assert(f[j] == stamp[j - n - 1]);
    }
    lemma_last_index_skips(f, '_', n + 1 + k, n);
    assert(f.take(n) =~= name);
    assert(f.skip(n + 1) =~= stamp);
}

/// Splits a backup file name into the original name and the stamp.
pub fn split_backup_filename(filename: &str) -> (r: Option<(String, String)>)
    ensures
        r matches Some((n, s)) ==> split_backup_name(filename@) == Some((n@, s@)),
        r is None ==> split_backup_name(filename@) is None,
{
    let cs = crate::text::chars_of(filename);
    let len = cs.len();
    let mut i = len;
    while i > 0 && cs[i - 1] != '_'
        invariant
            i <= len == cs@.len(),
            last_index_before(cs@, '_', len as int) == last_index_before(cs@, '_', i as int),
        decreases i,
    {
        i = i - 1;
    }
    if i == 0 {
        return None;
    }
    let i = i - 1;
    let mut j = i;
    while j > 0 && cs[j - 1] != '_'
        invariant
            j <= i < len == cs@.len(),
            last_index_before(cs@, '_', i as int) == last_index_before(cs@, '_', j as int),
        decreases j,
    {
        j = j - 1;
    }
    if j == 0 {
        return None;
    }
    let j = j - 1;
    let name = crate::text::substring(&cs, 0, j);
    let stamp = crate::text::substring(&cs, j + 1, len);
    assert(cs@.subrange(0, j as int) =~= cs@.take(j as int));
    assert(cs@.subrange(j + 1, len as int) =~= cs@.skip(j + 1));
    Some((name, stamp))
}

impl BackupEntry {
    /// A copy of this entry.
    pub fn duplicate(&self) -> (r: BackupEntry)
        ensures
            r@ == self@,
    {
        BackupEntry {
            original_name: self.original_name.clone(),
            timestamp: self.timestamp,
            backup_path: self.backup_path.clone(),
            target_path: self.target_path.clone(),
            file_size: self.file_size,
        }
    }

    /// Reads the original name and the time of a backup from its file name,
    /// such as `.bashrc_20241114_143052.123456`. The name is what precedes the
    /// second-to-last `_`; the rest is the stamp, read in the stamp format and
    /// placed in the local time zone. `None` when the name has fewer than two
    /// `_`, when the stamp does not parse, or when the local time it names is
    /// ambiguous or does not exist.
    pub fn parse_backup_filename(filename: &str) -> (r: Option<(String, i64)>)
        ensures
            split_backup_name(filename@) is None ==> r is None,
            split_backup_name(filename@) matches Some((n, s)) && !naive_parse_ok(
                s,
                STAMP_FORMAT@,
            ) ==> r is None,
            r matches Some((n, t)) ==> split_backup_name(filename@) matches Some((n2, s)) && n@
                == n2 && naive_parse_ok(s, STAMP_FORMAT@),
    {
        let (name, stamp) = match split_backup_filename(filename) {
            Some(p) => p,
            None => return None,
        };
        let dt = match crate::stamp::parse_naive(stamp.as_str(), STAMP_FORMAT) {
            Some(dt) => dt,
            None => return None,
        };
        match crate::stamp::local_instant_micros(&dt) {
            Some(t) => Some((name, t)),
            None => None,
        }
    }
}

/// The entry that the name and time read from a backup file name give: none
/// when nothing was read; otherwise that name and time, the backup's path and
/// size, and the name's place in `target_base`.
pub open spec fn entry_of_parsed(
    backup_path: Seq<char>,
    target_base: Seq<char>,
    file_size: nat,
    parsed: Option<(Seq<char>, int)>,
) -> Option<BackupEntryView> {
    match parsed {
        None => None,
        Some((n, t)) => Some(
            BackupEntryView {
                original_name: n,
                timestamp: t,
                backup_path,
                target_path: crate::path::join(target_base, n),
                file_size,
            },
        ),
    }
}

/// A name and a time read from a backup file name, as plain values.
pub open spec fn parsed_view(p: Option<(String, i64)>) -> Option<(Seq<char>, int)> {
    match p {
        Some((n, t)) => Some((n@, t as int)),
        None => None,
    }
}

/// An optional entry as plain values.
pub open spec fn entry_view(e: Option<BackupEntry>) -> Option<BackupEntryView> {
    match e {
        Some(e) => Some(e@),
        None => None,
    }
}

impl BackupEntry {
    /// The entry for the backup file at `backup_path`, of `file_size` bytes,
    /// restored into `target_base`, given what reading its file name gave.
    pub fn entry_from_parsed(backup_path: &str, target_base: &str, file_size: u64, parsed: Option<(String, i64)>) -> (r: Option<BackupEntry>)
        ensures
            entry_view(r) == entry_of_parsed(backup_path@, target_base@, file_size as nat, parsed_view(parsed)),
    {
        match parsed {
            None => None,
            Some((original_name, timestamp)) => {
                let target_path = crate::path::path_join(target_base, original_name.as_str());
                Some(BackupEntry {
                    original_name,
                    timestamp,
                    backup_path: backup_path.to_owned(),
                    target_path,
                    file_size,
                })
            },
        }
    }

    /// The entry for the backup file at `backup_path`, of `file_size` bytes,
    /// to be restored into `target_base`: `None` when the path has no file name
    /// or the file name does not read as a backup name (see
    /// `parse_backup_filename`); otherwise the entry of what reading the name
    /// gave.
    pub fn from_path(backup_path: &str, target_base: &str, file_size: u64) -> (r: Option<BackupEntry>)
        ensures
            crate::path::path_file_name(backup_path@) is None ==> r is None,
            crate::path::path_file_name(backup_path@) matches Some(f) && split_backup_name(f) is None ==> r is None,
            crate::path::path_file_name(backup_path@) matches Some(f) && split_backup_name(f) matches Some((n, s))
                && !naive_parse_ok(s, STAMP_FORMAT@) ==> r is None,
            crate::path::path_file_name(backup_path@) matches Some(f) ==> exists|o: Option<(Seq<char>, int)>|
                backup_parse(f, o) && entry_view(r) == entry_of_parsed(backup_path@, target_base@, file_size as nat, o),
            r matches Some(e) ==> crate::path::path_file_name(backup_path@) matches Some(f)
                && split_backup_name(f) matches Some((n, s))
                && e@.original_name == n
                && naive_parse_ok(s, STAMP_FORMAT@)
                && e@.backup_path == backup_path@
                && e@.file_size == file_size
                && e@.target_path == crate::path::join(target_base@, n),
    {
        let filename = match crate::path::file_name(backup_path) {
            Some(f) => f,
            None => return None,
        };
        let parsed = Self::parse_backup_filename(filename.as_str());
        let ghost o = parsed_view(parsed);
        proof {
            assert(backup_parse(filename@, o));
        }
        Self::entry_from_parsed(backup_path, target_base, file_size, parsed)
    }

    /// The first `max_lines` lines of the backup's content, as `str::lines`
    /// splits them.
    pub fn preview_content(content: &str, max_lines: usize) -> (r: Vec<String>)
        ensures
            r@.map_values(|l: String| l@) == crate::text::lines(content@).take(
                if max_lines <= crate::text::lines(content@).len() {
                    max_lines as int
                } else {
                    crate::text::lines(content@).len() as int
                },
            ),
    {
        let cs = crate::text::chars_of(content);
        crate::text::first_lines(&cs, max_lines)
    }
}

/// The name under which a file named `name` is backed up at `stamp`.
pub fn backup_file_name(name: &str, stamp: &str) -> (r: String)
    ensures
        r@ == backup_name(name@, stamp@),
{
    let mut r = name.to_owned();
    crate::text::push_char(&mut r, '_');
    r.append(stamp);
    r
}


/// The unit by which `n` is divided to keep 53 significant bits: 1 below
/// 2^53, doubled for every bit above.
pub open spec fn mantissa_unit(n: nat) -> nat
    decreases n,
{
    if n < 0x20_0000_0000_0000 {
        1
    } else {
        2 * mantissa_unit(n / 2)
    }
}

/// The double nearest to `n`, ties to even: the value of `n as f64`.
pub open spec fn nearest_double(n: nat) -> nat {
    let u = mantissa_unit(n);
    let q = n / u;
    let r = n % u;
    if 2 * r > u || (2 * r == u && q % 2 == 1) {
        (q + 1) * u
    } else {
        q * u
    }
}

/// `x / unit` in tenths, rounded to the nearest, ties to even.
pub open spec fn rounded_tenths(x: nat, unit: nat) -> nat {
    let q = (10 * x) / unit;
    let r = (10 * x) % unit;
    if 2 * r > unit || (2 * r == unit && q % 2 == 1) {
        q + 1
    } else {
        q
    }
}

/// A number of tenths written with one decimal, as `{:.1}` writes it.
pub open spec fn one_decimal(t: nat) -> Seq<char> {
    decimal(t / 10).push('.').push(digit_char(t % 10))
}

/// A size in bytes as it is shown: bytes below 1 KiB, then KB, MB and GB to one
/// decimal (1024 bytes to the KB), the size taken as the double nearest to it.
pub open spec fn size_text(size: nat) -> Seq<char> {
    if size < 1024 {
        decimal(size) + " B"@
    } else if size < 1024 * 1024 {
        one_decimal(rounded_tenths(size, 1024)) + " KB"@
    } else if size < 1024 * 1024 * 1024 {
        one_decimal(rounded_tenths(size, 1024 * 1024)) + " MB"@
    } else {
        one_decimal(rounded_tenths(nearest_double(size), 1024 * 1024 * 1024)) + " GB"@
    }
}

proof fn lemma_unit_step(n: nat, m: nat, u: nat)
    requires
        u > 0,
        m == n / u,
        mantissa_unit(n) == u * mantissa_unit(m),
        m >= 0x20_0000_0000_0000,
    ensures
        m / 2 == n / (u * 2),
        mantissa_unit(n) == (u * 2) * mantissa_unit(m / 2),
{
    vstd::arithmetic::div_mod::lemma_div_denominator(n as int, u as int, 2);
    assert(mantissa_unit(m) == 2 * mantissa_unit(m / 2));
    vstd::arithmetic::mul::lemma_mul_is_associative(u as int, 2, mantissa_unit(m / 2) as int);
}

/// The value of `n as f64`, as an integer.
fn nearest_double_of(n: u64) -> (d: u128)
    ensures
        d == nearest_double(n as nat),
        d <= 0x2_0000_0000_0000_0000,
{
    let mut m: u64 = n;
    let mut u: u128 = 1;
    while m >= 0x20_0000_0000_0000
        invariant
            u > 0,
            m == n as nat / u as nat,
            mantissa_unit(n as nat) == u * mantissa_unit(m as nat),
            u <= 0x1_0000_0000_0000_0000,
            u * m <= n,
        decreases m,
    {
        proof {
            lemma_unit_step(n as nat, m as nat, u as nat);
            assert(u * 2 * (m / 2) <= n) by (nonlinear_arith)
                requires
                    u * m <= n,
                    u > 0,
            ;
            assert(u * 2 <= 0x1_0000_0000_0000_0000) by (nonlinear_arith)
                requires
                    u * m <= n,
                    m >= 0x20_0000_0000_0000,
                    n < 0x1_0000_0000_0000_0000,
            ;
        }
        m = m / 2;
        u = u * 2;
    }
    assert(mantissa_unit(m as nat) == 1);
    assert(mantissa_unit(n as nat) == u) by (nonlinear_arith)
        requires
            mantissa_unit(n as nat) == u * mantissa_unit(m as nat),
            mantissa_unit(m as nat) == 1,
    ;
    let nn = n as u128;
    let q = nn / u;
    let r = nn % u;
    assert(q == m);
    assert(q * u + u <= 0x2_0000_0000_0000_0000) by (nonlinear_arith)
        requires
            u * m <= n,
            q == m,
            u <= 0x1_0000_0000_0000_0000,
            n < 0x1_0000_0000_0000_0000,
    ;
    assert((q + 1) * u == q * u + u) by (nonlinear_arith);
    if 2 * r > u || (2 * r == u && q % 2 == 1) {
        (q + 1) * u
    } else {
        q * u
    }
}

/// `x / unit` in tenths, rounded to the nearest, ties to even.
fn rounded_tenths_of(x: u128, unit: u128) -> (t: u128)
    requires
        0 < unit <= 0x1_0000_0000_0000_0000,
        x <= 0x2_0000_0000_0000_0000,
    ensures
        t == rounded_tenths(x as nat, unit as nat),
        t <= (10 * x as int) / (unit as int) + 1,
{
    let q = (10 * x) / unit;
    let r = (10 * x) % unit;
    assert(q <= 10 * x) by (nonlinear_arith)
        requires
            q as int == (10 * x as int) / (unit as int),
            unit > 0,
    ;
    if 2 * r > unit || (2 * r == unit && q % 2 == 1) {
        q + 1
    } else {
        q
    }
}

/// Appends a number of tenths, written with one decimal.
fn push_one_decimal(s: &mut String, t: u128)
    requires
        t < 0xA_0000_0000_0000_0000,
    ensures
        final(s)@ == old(s)@ + one_decimal(t as nat),
{
    let whole = t / 10;
    crate::text::push_decimal(s, whole as u64);
    crate::text::push_char(s, '.');
    let d = (t % 10) as u64;
    crate::text::push_char(s, crate::text::digit_of(d));
}

impl BackupEntry {
    /// The size of the backup file as it is shown: `512 B`, `1.0 KB`, `1.5 MB`,
    /// `2.0 GB`.
    pub fn format_size(&self) -> (s: String)
        ensures
            s@ == size_text(self.file_size as nat),
    {
        let size = self.file_size;
        let mut s = String::new();
        if size < 1024 {
            crate::text::push_decimal(&mut s, size);
            s.append(" B");
        } else if size < 1024 * 1024 {
            push_one_decimal(&mut s, rounded_tenths_of(size as u128, 1024));
            s.append(" KB");
        } else if size < 1024 * 1024 * 1024 {
            push_one_decimal(&mut s, rounded_tenths_of(size as u128, 1024 * 1024));
            s.append(" MB");
        } else {
            let d = nearest_double_of(size);
            assert((10 * d as int) / (0x4000_0000int) <= 0x50_0000_0000) by (nonlinear_arith)
                requires
                    d <= 0x2_0000_0000_0000_0000,
            ;
            push_one_decimal(&mut s, rounded_tenths_of(d, 1024 * 1024 * 1024));
            s.append(" GB");
        }
        s
    }
}

} // verus!
