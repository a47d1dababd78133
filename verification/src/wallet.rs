//! Wallet manifest parsing.
//!
//! A manifest is UTF-8 text, one entry per line as `crypto_symbol,address`.
//! Blank lines and lines starting with `#` are ignored; any other line must
//! split on exactly one comma, the address keeping no surrounding
//! whitespace.  Parsing is fail-fast: the first malformed line aborts the
//! whole parse, before any resolution is attempted.

use vstd::prelude::*;
use vstd::string::StrSliceExecFns;

use crate::errors::CryptoError;

verus! {

/// One parsed manifest line: an asset symbol and a wallet address.
#[derive(Debug, PartialEq, Eq)]
pub struct WalletEntry {
    pub crypto: String,
    pub address: String,
}

impl View for WalletEntry {
    type V = (Seq<char>, Seq<char>);

    open spec fn view(&self) -> (Seq<char>, Seq<char>) {
        (self.crypto@, self.address@)
    }
}

/// The whitespace characters a blank line or a padded address may hold.
pub open spec fn spec_is_space(c: char) -> bool {
    c == ' ' || c == '\t' || c == '\r' || c == '\n' || c == '\u{b}' || c == '\u{c}'
}

/// Executable form of [`spec_is_space`].
pub fn is_space(c: char) -> (r: bool)
    ensures
        r == spec_is_space(c),
{
    c == ' ' || c == '\t' || c == '\r' || c == '\n' || c == '\u{b}' || c == '\u{c}'
}

/// The first position of `c` in `s`, or `s.len()` when `s` has no `c`.
pub open spec fn spec_find_char(s: Seq<char>, c: char) -> nat
    decreases s.len(),
{
    if s.len() == 0 {
        0
    } else if s[0] == c {
        0
    } else {
        (1 + spec_find_char(s.drop_first(), c)) as nat
    }
}

proof fn lemma_find_char_bounds(s: Seq<char>, c: char)
    ensures
        spec_find_char(s, c) <= s.len(),
        forall|j: int| 0 <= j < spec_find_char(s, c) ==> s[j] != c,
        spec_find_char(s, c) < s.len() ==> s[spec_find_char(s, c) as int] == c,
    decreases s.len(),
{
    if s.len() > 0 && s[0] != c {
        lemma_find_char_bounds(s.drop_first(), c);
        assert forall|j: int| 0 <= j < spec_find_char(s, c) implies s[j] != c by {
            if j > 0 {
                assert(s.drop_first()[j - 1] == s[j]);
            }
        }
    }
}

proof fn lemma_find_char_at(s: Seq<char>, c: char, i: int)
    requires
        0 <= i <= s.len(),
        forall|j: int| 0 <= j < i ==> s[j] != c,
        i < s.len() ==> s[i] == c,
    ensures
        spec_find_char(s, c) == i,
{
    lemma_find_char_bounds(s, c);
}

/// How many times `c` occurs in `s`.
pub open spec fn spec_count_char(s: Seq<char>, c: char) -> nat
    decreases s.len(),
{
    if s.len() == 0 {
        0
    } else {
        (spec_count_char(s.drop_last(), c) + (if s.last() == c {
            1nat
        } else {
            0nat
        })) as nat
    }
}

/// A line with its one trailing carriage return removed, as `str::lines`
/// removes it.
pub open spec fn spec_strip_cr(line: Seq<char>) -> Seq<char> {
    if line.len() > 0 && line[line.len() - 1] == '\r' {
        line.drop_last()
    } else {
        line
    }
}

/// The lines of `text`: split at every newline, each line keeping no
/// trailing carriage return, with no empty line after a final newline.
pub open spec fn spec_lines(text: Seq<char>) -> Seq<Seq<char>>
    decreases text.len(),
{
    if text.len() == 0 {
        Seq::empty()
    } else {
        let b = spec_find_char(text, '\n') as int;
        if b >= text.len() {
            seq![spec_strip_cr(text)]
        } else {
            seq![spec_strip_cr(text.subrange(0, b))] + spec_lines(
                text.subrange(b + 1, text.len() as int),
            )
        }
    }
}

/// Whether the manifest ignores this line: a comment or all whitespace.
pub open spec fn spec_skipped(line: Seq<char>) -> bool {
    (line.len() > 0 && line[0] == '#') || spec_is_blank(line)
}

/// A line of nothing but whitespace.
pub open spec fn spec_is_blank(line: Seq<char>) -> bool {
    forall|j: int| 0 <= j < line.len() ==> spec_is_space(line[j])
}

/// `s` without leading whitespace.
pub open spec fn spec_trim_start(s: Seq<char>) -> Seq<char>
    decreases s.len(),
{
    if s.len() > 0 && spec_is_space(s[0]) {
        spec_trim_start(s.drop_first())
    } else {
        s
    }
}

/// `s` without trailing whitespace.
pub open spec fn spec_trim_end(s: Seq<char>) -> Seq<char>
    decreases s.len(),
{
    if s.len() > 0 && spec_is_space(s[s.len() - 1]) {
        spec_trim_end(s.drop_last())
    } else {
        s
    }
}

/// `s` without surrounding whitespace.
pub open spec fn spec_trim(s: Seq<char>) -> Seq<char> {
    spec_trim_end(spec_trim_start(s))
}

proof fn lemma_trim_start_window(s: Seq<char>, a: int)
    requires
        0 <= a <= s.len(),
        forall|j: int| 0 <= j < a ==> spec_is_space(s[j]),
        a < s.len() ==> !spec_is_space(s[a]),
    ensures
        spec_trim_start(s) == s.subrange(a, s.len() as int),
    decreases a,
{
    if a == 0 {
        assert(s.subrange(0, s.len() as int) =~= s);
    } else {
        lemma_trim_start_window(s.drop_first(), a - 1);
        assert(s.drop_first().subrange(a - 1, s.drop_first().len() as int) =~= s.subrange(
            a,
            s.len() as int,
        ));
    }
}

proof fn lemma_trim_end_window(s: Seq<char>, b: int)
    requires
        0 <= b <= s.len(),
        forall|j: int| b <= j < s.len() ==> spec_is_space(s[j]),
        b > 0 ==> !spec_is_space(s[b - 1]),
    ensures
        spec_trim_end(s) == s.subrange(0, b),
    decreases s.len(),
{
    if b == s.len() {
        assert(s.subrange(0, s.len() as int) =~= s);
    } else {
        lemma_trim_end_window(s.drop_last(), b);
        assert(s.drop_last() =~= s.subrange(0, s.len() - 1));
        assert(s.drop_last().subrange(0, b) =~= s.subrange(0, b));
    }
}

/// Remove surrounding whitespace.
fn trim_str(s: &str) -> (r: String)
    ensures
        r@ == spec_trim(s@),
{
    let n = s.unicode_len();
    let mut a: usize = 0;
    while a < n && is_space(s.get_char(a))
        invariant
            n == s@.len(),
            a <= n,
            forall|j: int| 0 <= j < a ==> spec_is_space(s@[j]),
        decreases n - a,
    {
        a += 1;
    }
    proof {
        lemma_trim_start_window(s@, a as int);
    }
    if a == n {
        proof {
            lemma_trim_end_window(spec_trim_start(s@), 0);
            assert(spec_trim(s@) =~= Seq::<char>::empty());
        }
        return String::new();
    }
    let mut b: usize = n;
    while b > a && is_space(s.get_char(b - 1))
        invariant
            n == s@.len(),
            a <= b <= n,
            a < n,
            !spec_is_space(s@[a as int]),
            forall|j: int| b <= j < n ==> spec_is_space(s@[j]),
        decreases b,
    {
        b -= 1;
    }
    let out = s.substring_char(a, b).to_owned();
    proof {
        let t = spec_trim_start(s@);
        assert(t == s@.subrange(a as int, n as int));
        lemma_trim_end_window(t, b - a);
        assert(t.subrange(0, b - a) =~= s@.subrange(a as int, b as int));
    }
    out
}

/// A manifest line as (crypto, address): the text before the line's one
/// comma, and the text after it without surrounding whitespace.  `None`
/// when the line does not hold exactly one comma.
pub open spec fn spec_parse_line(line: Seq<char>) -> Option<(Seq<char>, Seq<char>)> {
    if spec_count_char(line, ',') == 1 {
        let i = spec_find_char(line, ',') as int;
        Some((line.subrange(0, i), spec_trim(line.subrange(i + 1, line.len() as int))))
    } else {
        None
    }
}

/// Parse one kept manifest line.
fn parse_line(line: &str) -> (r: Option<WalletEntry>)
    ensures
        match spec_parse_line(line@) {
            Some(pair) => r matches Some(entry) && entry.crypto@ == pair.0 && entry.address@
                == pair.1,
            None => r is None,
        },
{
    let n = line.unicode_len();
    let mut count: usize = 0;
    let mut first_comma: usize = n;
    for i in 0..n
        invariant
            n == line@.len(),
            count == spec_count_char(line@.subrange(0, i as int), ','),
            count <= i,
            first_comma <= n,
            if count == 0 {
                first_comma == n && (forall|j: int| 0 <= j < i ==> line@[j] != ',')
            } else {
                first_comma < i && line@[first_comma as int] == ',' && (forall|j: int|
                    0 <= j < first_comma ==> line@[j] != ',')
            },
    {
        let c = line.get_char(i);
        proof {
            assert(line@.subrange(0, i + 1).drop_last() =~= line@.subrange(0, i as int));
            assert(line@.subrange(0, i + 1).last() == line@[i as int]);
        }
        if c == ',' {
            if count == 0 {
                first_comma = i;
            }
            count += 1;
        }
    }
    proof {
        assert(line@.subrange(0, n as int) =~= line@);
    }
    if count != 1 {
        return None;
    }
    proof {
        lemma_find_char_at(line@, ',', first_comma as int);
    }
    let crypto = line.substring_char(0, first_comma).to_owned();
    let address = trim_str(line.substring_char(first_comma + 1, n));
    Some(WalletEntry { crypto, address })
}

/// Whether the manifest ignores this line.
fn line_skipped(line: &str) -> (r: bool)
    ensures
        r == spec_skipped(line@),
{
    let n = line.unicode_len();
    if n > 0 && line.get_char(0) == '#' {
        return true;
    }
    for i in 0..n
        invariant
            n == line@.len(),
            !(n > 0 && line@[0] == '#'),
            forall|j: int| 0 <= j < i ==> spec_is_space(line@[j]),
    {
        if !is_space(line.get_char(i)) {
            return false;
        }
    }
    true
}

/// One line of `text`, the characters from `start` up to `end`, without a
/// trailing carriage return.
fn make_line(text: &str, start: usize, end: usize) -> (r: String)
    requires
        start <= end <= text@.len(),
    ensures
        r@ == spec_strip_cr(text@.subrange(start as int, end as int)),
{
    let stop = if end > start && text.get_char(end - 1) == '\r' {
        end - 1
    } else {
        end
    };
    proof {
        let whole = text@.subrange(start as int, end as int);
        if end > start && text@[end - 1] == '\r' {
            assert(whole.drop_last() =~= text@.subrange(start as int, end - 1));
        }
    }
    text.substring_char(start, stop).to_owned()
}

/// Split manifest text into its lines.
fn split_lines(text: &str) -> (r: Vec<String>)
    ensures
        r@.map_values(|l: String| l@) == spec_lines(text@),
{
    let n = text.unicode_len();
    let mut lines: Vec<String> = Vec::new();
    let mut start: usize = 0;
    let mut i: usize = 0;
    proof {
        assert(text@.subrange(0, n as int) =~= text@);
        assert(lines@.map_values(|l: String| l@) =~= Seq::<Seq<char>>::empty());
    }
    while i < n
        invariant
            n == text@.len(),
            start <= i <= n,
            forall|j: int| start <= j < i ==> text@[j] != '\n',
            lines@.map_values(|l: String| l@) + spec_lines(
                text@.subrange(start as int, n as int),
            ) =~= spec_lines(text@),
        decreases n - i,
    {
        if text.get_char(i) == '\n' {
            let ghost prev = lines@.map_values(|l: String| l@);
            let ghost suffix = text@.subrange(start as int, n as int);
            let line = make_line(text, start, i);
            lines.push(line);
            proof {
                assert(suffix.len() > 0);
                assert forall|j: int| 0 <= j < i - start implies suffix[j] != '\n' by {
                    assert(suffix[j] == text@[start + j]);
                }
                assert(suffix[i - start] == '\n');
                lemma_find_char_at(suffix, '\n', i - start);
                assert(suffix.subrange(0, i - start) =~= text@.subrange(start as int, i as int));
                assert(suffix.subrange(i - start + 1, suffix.len() as int) =~= text@.subrange(
                    i + 1,
                    n as int,
                ));
                assert(lines@.map_values(|l: String| l@) =~= prev.push(line@));
                assert(prev.push(line@) + spec_lines(text@.subrange(i + 1, n as int)) =~= prev + (
                seq![line@] + spec_lines(text@.subrange(i + 1, n as int))));
            }
            start = i + 1;
        }
        i += 1;
    }
    if start < n {
        let ghost prev = lines@.map_values(|l: String| l@);
        let ghost suffix = text@.subrange(start as int, n as int);
        let line = make_line(text, start, n);
        lines.push(line);
        proof {
            assert forall|j: int| 0 <= j < suffix.len() implies suffix[j] != '\n' by {
                assert(suffix[j] == text@[start + j]);
            }
            lemma_find_char_at(suffix, '\n', suffix.len() as int);
            assert(suffix =~= text@.subrange(start as int, n as int));
            assert(spec_lines(suffix) =~= seq![spec_strip_cr(suffix)]);
            assert(lines@.map_values(|l: String| l@) =~= prev.push(line@));
            assert(prev.push(line@) =~= prev + seq![line@]);
        }
    } else {
        proof {
            assert(text@.subrange(start as int, n as int).len() == 0);
            assert(lines@.map_values(|l: String| l@) + Seq::<Seq<char>>::empty() =~= lines@
                .map_values(|l: String| l@));
        }
    }
    lines
}

/// What a sequence of manifest lines parses to: the entries of every kept
/// line in order, or the first malformed line.
pub open spec fn spec_parse_entries(lines: Seq<Seq<char>>) -> Result<
    Seq<(Seq<char>, Seq<char>)>,
    Seq<char>,
>
    decreases lines.len(),
{
    if lines.len() == 0 {
        Ok(Seq::empty())
    } else if spec_skipped(lines[0]) {
        spec_parse_entries(lines.drop_first())
    } else {
        match spec_parse_line(lines[0]) {
            None => Err(lines[0]),
            Some(entry) => match spec_parse_entries(lines.drop_first()) {
                Ok(rest) => Ok(seq![entry] + rest),
                Err(bad) => Err(bad),
            },
        }
    }
}

/// What a whole manifest parses to.
pub open spec fn spec_parse_manifest(text: Seq<char>) -> Result<
    Seq<(Seq<char>, Seq<char>)>,
    Seq<char>,
> {
    spec_parse_entries(spec_lines(text))
}

/// Parse the lines of a manifest.
fn parse_entries(lines: &Vec<String>) -> (r: Result<Vec<WalletEntry>, CryptoError>)
    ensures
        match spec_parse_entries(lines@.map_values(|l: String| l@)) {
            Ok(entries) => r matches Ok(v) && v@.map_values(|e: WalletEntry| e@) == entries,
            Err(bad_line) => r matches Err(e) && (e matches CryptoError::InvalidInput(m) && m@
                == bad_line),
        },
{
    let ghost all = lines@.map_values(|l: String| l@);
    let mut entries: Vec<WalletEntry> = Vec::new();
    let n = lines.len();
    proof {
        assert(all.skip(0) =~= all);
        assert(entries@.map_values(|e: WalletEntry| e@) =~= Seq::<(Seq<char>, Seq<char>)>::empty());
        if spec_parse_entries(all) is Ok {
            assert(Seq::<(Seq<char>, Seq<char>)>::empty() + spec_parse_entries(all)->Ok_0
                =~= spec_parse_entries(all)->Ok_0);
        }
    }
    for k in 0..n
        invariant
            n == lines.len(),
            all == lines@.map_values(|l: String| l@),
            match spec_parse_entries(all.skip(k as int)) {
                Ok(rest) => spec_parse_entries(all) == Ok::<_, Seq<char>>(
                    entries@.map_values(|e: WalletEntry| e@) + rest,
                ),
                Err(bad) => spec_parse_entries(all) == Err::<Seq<(Seq<char>, Seq<char>)>, _>(bad),
            },
    {
        let ghost suffix = all.skip(k as int);
        proof {
            assert(suffix.len() > 0);
            assert(suffix[0] == all[k as int]);
            assert(suffix.drop_first() =~= all.skip(k as int + 1));
        }
        let line = &lines[k];
        if !line_skipped(line.as_str()) {
            let ghost prev = entries@.map_values(|e: WalletEntry| e@);
            match parse_line(line.as_str()) {
                Some(entry) => {
                    entries.push(entry);
                    proof {
                        assert(entries@.map_values(|e: WalletEntry| e@) =~= prev.push(entry@));
                        if spec_parse_entries(suffix.drop_first()) is Ok {
                            let rest = spec_parse_entries(suffix.drop_first())->Ok_0;
                            assert(prev.push(entry@) + rest =~= prev + (seq![entry@] + rest));
                        }
                    }
                },
                None => {
                    return Err(CryptoError::InvalidInput(line.clone()));
                },
            }
        }
    }
    proof {
        assert(all.skip(n as int) =~= Seq::<Seq<char>>::empty());
        assert(entries@.map_values(|e: WalletEntry| e@) + Seq::<(Seq<char>, Seq<char>)>::empty()
            =~= entries@.map_values(|e: WalletEntry| e@));
    }
    Ok(entries)
}

/// Parse a wallet manifest.
///
/// Blank and `#`-comment lines are ignored; every other line must be
/// `crypto_symbol,address` with exactly one comma, and the first line that
/// is not aborts the parse, carried inside the error.
pub fn parse_manifest(text: &str) -> (r: Result<Vec<WalletEntry>, CryptoError>)
    ensures
        match spec_parse_manifest(text@) {
            Ok(entries) => r matches Ok(v) && v@.map_values(|e: WalletEntry| e@) == entries,
            Err(bad_line) => r matches Err(e) && (e matches CryptoError::InvalidInput(m) && m@
                == bad_line),
        },
{
    let lines = split_lines(text);
    parse_entries(&lines)
}

/// The manifest's lines with the ignored ones removed.
pub open spec fn spec_kept_lines(lines: Seq<Seq<char>>) -> Seq<Seq<char>>
    decreases lines.len(),
{
    if lines.len() == 0 {
        Seq::empty()
    } else if spec_skipped(lines[0]) {
        spec_kept_lines(lines.drop_first())
    } else {
        seq![lines[0]] + spec_kept_lines(lines.drop_first())
    }
}

/// Law: blank lines and comment lines do not affect the parse — a manifest
/// parses to exactly what it parses to with those lines removed.
pub proof fn lemma_skipped_lines_ignored(lines: Seq<Seq<char>>)
    ensures
        spec_parse_entries(lines) == spec_parse_entries(spec_kept_lines(lines)),
    decreases lines.len(),
{
    if lines.len() > 0 {
        let first = lines[0];
        let rest = lines.drop_first();
        lemma_skipped_lines_ignored(rest);
        if !spec_skipped(first) {
            let kept = spec_kept_lines(lines);
            assert(kept == seq![first] + spec_kept_lines(rest));
            assert(kept[0] == first);
            assert(kept.drop_first() =~= spec_kept_lines(rest));
        }
    }
}

} // verus!
