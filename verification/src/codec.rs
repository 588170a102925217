use crate::sync_error::SyncError;
use vstd::prelude::*;

verus! {

/// Milliseconds of the last instant the timestamp library can represent
/// (the final millisecond of its maximal year).
pub const MAX_INSTANT_MILLIS: i64 = 8_210_266_876_799_999;

/// The instants this library formats: at or after the epoch and within the
/// timestamp library's representable range.
pub open spec fn valid_instant(t: int) -> bool {
    0 <= t <= MAX_INSTANT_MILLIS as int
}

/// What chrono's RFC3339 formatter (UTC, second precision, `Z` suffix) prints
/// for the instant `t` milliseconds after the epoch.
pub uninterp spec fn rfc3339_utc_of(t: i64) -> Seq<char>;

/// What chrono's RFC3339 parser, taken to milliseconds after the epoch,
/// returns for the text `s`; `None` when `s` is not an RFC3339 timestamp.
pub uninterp spec fn rfc3339_parse_of(s: Seq<char>) -> Option<i64>;

/// Relies on chrono's `DateTime::<Utc>::from_timestamp_millis`, which accepts
/// every instant in `valid_instant`, and `to_rfc3339_opts(SecondsFormat::Secs,
/// true)`, whose output is a function of the instant alone and is drawn from
/// the RFC3339 alphabet (digits, `-`, `:`, `T`, `Z`, `+`, `.`), which has no
/// underscore.
#[verifier::external_body]
pub(crate) fn format_rfc3339_millis(millis: i64) -> (r: String)
    requires
        valid_instant(millis as int),
    ensures
        r@ == rfc3339_utc_of(millis),
        forall|i: int| 0 <= i < r@.len() ==> r@[i] != '_',
{
    let dt = chrono::DateTime::<chrono::Utc>::from_timestamp_millis(millis).unwrap();
    dt.to_rfc3339_opts(chrono::SecondsFormat::Secs, true)
}

/// Relies on chrono's `Utc::now`: a reading it returns at all is a valid
/// timestamp at or after the epoch (it reads the duration since the epoch and
/// converts it, aborting on a clock outside the representable range), so the
/// milliseconds are a valid instant.
#[verifier::external_body]
pub(crate) fn now_millis() -> (t: i64)
    ensures
        valid_instant(t as int),
{
    chrono::Utc::now().timestamp_millis()
}

/// Relies on chrono's `DateTime::parse_from_rfc3339`, taken to milliseconds
/// after the epoch with `timestamp_millis`: the outcome is a function of the
/// input characters alone, and an empty string — which holds no date at all —
/// never parses.
#[verifier::external_body]
pub(crate) fn parse_rfc3339_millis(s: &str) -> (r: Option<i64>)
    ensures
        r == rfc3339_parse_of(s@),
        s@.len() == 0 ==> r is None,
{
    match chrono::DateTime::parse_from_rfc3339(s) {
        Ok(dt) => Some(dt.timestamp_millis()),
        Err(_) => None,
    }
}

/// Index of the first occurrence of `c` in `s`, or `s.len()` when `c` does
/// not occur.
pub open spec fn first_index_of(s: Seq<char>, c: char) -> int
    decreases s.len(),
{
    if s.len() == 0 {
        0
    } else if s[0] == c {
        0
    } else {
        1 + first_index_of(s.skip(1), c)
    }
}

pub proof fn lemma_first_index_bounds(s: Seq<char>, c: char)
    ensures
        0 <= first_index_of(s, c) <= s.len(),
        first_index_of(s, c) < s.len() ==> s[first_index_of(s, c)] == c,
        forall|j: int| 0 <= j < first_index_of(s, c) ==> s[j] != c,
    decreases s.len(),
{
    if s.len() == 0 {
    } else if s[0] == c {
    } else {
        lemma_first_index_bounds(s.skip(1), c);
        let k = first_index_of(s, c);
        assert forall|j: int| 0 <= j < k implies s[j] != c by {
            if j > 0 {
                assert(s.skip(1)[j - 1] == s[j]);
            }
        }
        if k < s.len() {
            assert(s.skip(1)[k - 1] == s[k]);
        }
    }
}

pub proof fn lemma_first_index_is(s: Seq<char>, c: char, k: int)
    requires
        0 <= k <= s.len(),
        forall|j: int| 0 <= j < k ==> s[j] != c,
        k < s.len() ==> s[k] == c,
    ensures
        first_index_of(s, c) == k,
    decreases s.len(),
{
    if s.len() == 0 {
    } else if s[0] == c {
        assert(k == 0);
    } else {
        assert(s[0] != c);
        assert(k > 0) by {
            if k == 0 {
                assert(s[0] == c);
            }
        }
        assert forall|j: int| 0 <= j < k - 1 implies s.skip(1)[j] != c by {
            assert(s.skip(1)[j] == s[j + 1]);
        }
        if k - 1 < s.skip(1).len() {
            assert(s.skip(1)[k - 1] == s[k]);
        }
        lemma_first_index_is(s.skip(1), c, k - 1);
    }
}

/// The segments of `s` between occurrences of `c`, in order: what Rust's
/// `str::split(c)` yields. Always at least one segment; empty segments are
/// kept, so a trailing `c` yields a trailing empty segment.
pub open spec fn split_of(s: Seq<char>, c: char) -> Seq<Seq<char>>
    decreases s.len(),
{
    if s.len() == 0 {
        seq![Seq::<char>::empty()]
    } else if s[0] == c {
        seq![Seq::<char>::empty()] + split_of(s.skip(1), c)
    } else {
        let rest = split_of(s.skip(1), c);
        seq![seq![s[0]] + rest[0]] + rest.skip(1)
    }
}

pub proof fn lemma_split_len(s: Seq<char>, c: char)
    ensures
        split_of(s, c).len() >= 1,
    decreases s.len(),
{
    if s.len() == 0 {
    } else {
        lemma_split_len(s.skip(1), c);
    }
}

/// Splitting at the first occurrence: the head segment is everything before
/// it, and the remaining segments are the split of everything after it.
pub proof fn lemma_split_at_first(s: Seq<char>, c: char)
    ensures
        first_index_of(s, c) == s.len() ==> split_of(s, c) == seq![s],
        first_index_of(s, c) < s.len() ==> split_of(s, c) == seq![
            s.take(first_index_of(s, c)),
        ] + split_of(s.skip(first_index_of(s, c) + 1), c),
    decreases s.len(),
{
    lemma_first_index_bounds(s, c);
    let k = first_index_of(s, c);
    if s.len() == 0 {
        assert(split_of(s, c) =~~= seq![s]);
    } else if s[0] == c {
        assert(k == 0);
        assert(split_of(s, c) =~~= seq![s.take(0)] + split_of(s.skip(1), c));
    } else {
        lemma_split_at_first(s.skip(1), c);
        lemma_split_len(s.skip(1), c);
        let rest = split_of(s.skip(1), c);
        let k1 = first_index_of(s.skip(1), c);
        assert(k == 1 + k1);
        if k1 == s.skip(1).len() {
            // no occurrence anywhere: one segment, the whole of s
            assert(rest == seq![s.skip(1)]);
            assert(seq![s[0]] + rest[0] =~= s);
            assert(split_of(s, c) =~~= seq![s]);
        } else {
            assert(rest == seq![s.skip(1).take(k1)] + split_of(s.skip(1).skip(k1 + 1), c));
            assert(s.skip(1).skip(k1 + 1) =~= s.skip(k + 1));
            assert(seq![s[0]] + rest[0] =~= s.take(k)) by {
                assert(rest[0] == s.skip(1).take(k1));
            }
            assert(rest.skip(1) =~~= split_of(s.skip(1).skip(k1 + 1), c));
            assert(split_of(s, c) =~~= seq![s.take(k)] + split_of(s.skip(k + 1), c));
        }
    }
}

/// Split `s` on the separator `c`, keeping empty segments, as `str::split`
/// does.
pub fn split_str(s: &str, c: char) -> (parts: Vec<String>)
    ensures
        parts.deep_view() == split_of(s@, c),
{
    let n = s.unicode_len();
    let mut parts: Vec<String> = Vec::new();
    let mut start: usize = 0;
    let mut i: usize = 0;
    proof {
        assert(parts.deep_view() =~= Seq::<Seq<char>>::empty());
        assert(s@.skip(0) =~= s@);
        assert(split_of(s@, c) =~= parts.deep_view() + split_of(s@.skip(0), c));
    }
    while i < n
        invariant
            0 <= start <= i <= n,
            n == s@.len(),
            split_of(s@, c) == parts.deep_view() + split_of(s@.skip(start as int), c),
            forall|j: int| start <= j < i ==> s@[j] != c,
        decreases n - i,
    {
        let ch = s.get_char(i);
        if ch == c {
            let seg = s.substring_char(start, i);
            let seg_string = String::from_str(seg);
            proof {
                let tail = s@.skip(start as int);
                assert forall|j: int| 0 <= j < i - start implies tail[j] != c by {
                    assert(tail[j] == s@[start + j]);
                }
                assert(tail[i - start] == s@[i as int]);
                lemma_first_index_is(tail, c, i - start);
                lemma_split_at_first(tail, c);
                assert(tail.take(i - start) =~= s@.subrange(start as int, i as int));
                assert(tail.skip(i - start + 1) =~= s@.skip(i + 1));
                assert(seg_string@ == s@.subrange(start as int, i as int));
            }
            let ghost old_parts = parts.deep_view();
            parts.push(seg_string);
            proof {
                assert(parts.deep_view() =~= old_parts.push(seg_string@));
                assert(split_of(s@, c) =~~= parts.deep_view() + split_of(s@.skip(i + 1), c));
            }
            start = i + 1;
        }
        i += 1;
    }
    let seg = s.substring_char(start, n);
    let seg_string = String::from_str(seg);
    proof {
        let tail = s@.skip(start as int);
        assert forall|j: int| 0 <= j < tail.len() implies tail[j] != c by {
            assert(tail[j] == s@[start + j]);
        }
        lemma_first_index_is(tail, c, n - start);
        lemma_split_at_first(tail, c);
        assert(tail =~= s@.subrange(start as int, n as int));
    }
    let ghost old_parts = parts.deep_view();
    parts.push(seg_string);
    proof {
        assert(parts.deep_view() =~= old_parts.push(seg_string@));
        assert(split_of(s@, c) =~~= parts.deep_view());
    }
    parts
}

/// The timestamp token of a directory name: everything before the first `_`,
/// or the whole name when it has no `_`.
pub open spec fn timestamp_token(name: Seq<char>) -> Seq<char> {
    name.take(first_index_of(name, '_'))
}

/// Extract the timestamp token of `name` and parse it as an RFC3339 instant.
/// A name with no parseable prefix is an error the callers tolerate.
pub fn parse_snapshot_name(name: &str) -> (r: Result<i64, SyncError>)
    ensures
        r matches Ok(t) ==> rfc3339_parse_of(timestamp_token(name@)) == Some(t),
        r matches Err(e) ==> rfc3339_parse_of(timestamp_token(name@)) is None && e
            is TimestampParseError,
{
    let n = name.unicode_len();
    let mut i: usize = 0;
    while i < n
        invariant
            0 <= i <= n,
            n == name@.len(),
            forall|j: int| 0 <= j < i ==> name@[j] != '_',
        ensures
            0 <= i <= n,
            forall|j: int| 0 <= j < i ==> name@[j] != '_',
            i < n ==> name@[i as int] == '_',
        decreases n - i,
    {
        if name.get_char(i) == '_' {
            break ;
        }
        i += 1;
    }
    proof {
        lemma_first_index_is(name@, '_', i as int);
    }
    let token = name.substring_char(0, i);
    proof {
        assert(token@ =~= timestamp_token(name@));
    }
    match parse_rfc3339_millis(token) {
        Some(t) => Ok(t),
        None => Err(SyncError::TimestampParseError),
    }
}

/// The `(instant, name)` pairs among `lines` whose timestamp prefix parses;
/// order is kept, lines that fail to parse are dropped.
pub open spec fn parsed_entries(lines: Seq<Seq<char>>) -> Seq<(i64, Seq<char>)>
    decreases lines.len(),
{
    if lines.len() == 0 {
        Seq::empty()
    } else {
        let rest = parsed_entries(lines.skip(1));
        match rfc3339_parse_of(timestamp_token(lines[0])) {
            Some(t) => seq![(t, lines[0])] + rest,
            None => rest,
        }
    }
}

/// The snapshots named by a raw directory listing: split on newlines, then
/// keep the lines whose timestamp prefix parses, in listing order.
pub open spec fn listing_snapshots(out: Seq<char>) -> Seq<(i64, Seq<char>)> {
    parsed_entries(split_of(out, '\n'))
}

proof fn lemma_parsed_entries_step(lines: Seq<Seq<char>>, i: int)
    requires
        0 <= i < lines.len(),
    ensures
        parsed_entries(lines.skip(i)) == match rfc3339_parse_of(timestamp_token(lines[i])) {
            Some(t) => seq![(t, lines[i])] + parsed_entries(lines.skip(i + 1)),
            None => parsed_entries(lines.skip(i + 1)),
        },
{
    let tail = lines.skip(i);
    assert(tail[0] == lines[i]);
    assert(tail.skip(1) =~~= lines.skip(i + 1));
}

/// Parse a raw directory listing into its `(instant, name)` snapshot pairs,
/// silently dropping lines whose timestamp prefix does not parse.
pub fn parse_listing(out: &str) -> (v: Vec<(i64, String)>)
    ensures
        v.deep_view() == listing_snapshots(out@),
{
    let lines = split_str(out, '\n');
    let mut v: Vec<(i64, String)> = Vec::new();
    let n = lines.len();
    let mut i: usize = 0;
    proof {
        assert(v.deep_view() =~= Seq::<(i64, Seq<char>)>::empty());
        assert(lines.deep_view().skip(0) =~~= lines.deep_view());
        assert(listing_snapshots(out@) == v.deep_view() + parsed_entries(
            lines.deep_view().skip(0),
        ));
    }
    while i < n
        invariant
            0 <= i <= n,
            n == lines@.len(),
            lines.deep_view() == split_of(out@, '\n'),
            listing_snapshots(out@) == v.deep_view() + parsed_entries(
                lines.deep_view().skip(i as int),
            ),
        decreases n - i,
    {
        proof {
            assert(lines.deep_view()[i as int] == lines@[i as int]@);
            lemma_parsed_entries_step(lines.deep_view(), i as int);
        }
        let line = &lines[i];
        match parse_snapshot_name(line.as_str()) {
            Ok(t) => {
                let ghost old_v = v.deep_view();
                v.push((t, line.clone()));
                proof {
                    assert(v.deep_view() =~= old_v.push((t, line@)));
                    assert(listing_snapshots(out@) =~~= v.deep_view() + parsed_entries(
                        lines.deep_view().skip(i + 1),
                    ));
                }
            },
            Err(_) => {
                proof {
                    assert(listing_snapshots(out@) =~~= v.deep_view() + parsed_entries(
                        lines.deep_view().skip(i + 1),
                    ));
                }
            },
        }
        i += 1;
    }
    proof {
        assert(parsed_entries(lines.deep_view().skip(n as int)) =~~= Seq::<(
            i64,
            Seq<char>,
        )>::empty());
        assert(v.deep_view() =~~= listing_snapshots(out@));
    }
    v
}

/// Law: every parsed entry comes from one of the lines, and its instant is
/// exactly what the timestamp prefix of its name parses to.
pub proof fn lemma_parsed_entries_sound(lines: Seq<Seq<char>>)
    ensures
        forall|i: int|
            0 <= i < parsed_entries(lines).len() ==> lines.contains(#[trigger] parsed_entries(
                lines,
            )[i].1) && rfc3339_parse_of(timestamp_token(parsed_entries(lines)[i].1)) == Some(
                parsed_entries(lines)[i].0,
            ),
    decreases lines.len(),
{
    if lines.len() == 0 {
    } else {
        lemma_parsed_entries_sound(lines.skip(1));
        let r = parsed_entries(lines);
        let rest = parsed_entries(lines.skip(1));
        assert forall|i: int|
            0 <= i < r.len() implies lines.contains(#[trigger] r[i].1) && rfc3339_parse_of(
            timestamp_token(r[i].1),
        ) == Some(r[i].0) by {
            match rfc3339_parse_of(timestamp_token(lines[0])) {
                Some(t) => {
                    if i == 0 {
                        assert(lines[0] == r[0].1);
                    } else {
                        assert(r[i] == rest[i - 1]);
                        let j = choose|j: int|
                            0 <= j < lines.skip(1).len() && lines.skip(1)[j] == rest[i - 1].1;
                        assert(lines[j + 1] == rest[i - 1].1);
                    }
                },
                None => {
                    assert(r[i] == rest[i]);
                    let j = choose|j: int|
                        0 <= j < lines.skip(1).len() && lines.skip(1)[j] == rest[i].1;
                    assert(lines[j + 1] == rest[i].1);
                },
            }
        }
    }
}

/// Law: a line whose timestamp prefix does not parse is silently omitted —
/// the parsed entries are exactly those of the listing without that line.
pub proof fn lemma_unparsable_line_omitted(lines: Seq<Seq<char>>, j: int)
    requires
        0 <= j < lines.len(),
        rfc3339_parse_of(timestamp_token(lines[j])) is None,
    ensures
        parsed_entries(lines) == parsed_entries(lines.remove(j)),
    decreases lines.len(),
{
    if j == 0 {
        assert(lines.remove(0) =~~= lines.skip(1));
    } else {
        lemma_unparsable_line_omitted(lines.skip(1), j - 1);
        assert(lines.remove(j).skip(1) =~~= lines.skip(1).remove(j - 1));
        assert(lines.remove(j)[0] == lines[0]);
    }
}

/// The directory name for a snapshot taken at instant `t`: the RFC3339 text
/// of `t`, an underscore, and the operator-supplied suffix.
pub open spec fn snapshot_name_of(t: i64, suffix: Seq<char>) -> Seq<char> {
    rfc3339_utc_of(t) + "_"@ + suffix
}

/// Format the directory name for a snapshot taken at instant `t`. The name is
/// a function of the instant and the suffix alone, and its timestamp token is
/// exactly the RFC3339 text of `t`.
pub fn format_snapshot_name(t: i64, suffix: &str) -> (r: String)
    requires
        valid_instant(t as int),
    ensures
        r@ == snapshot_name_of(t, suffix@),
        timestamp_token(r@) == rfc3339_utc_of(t),
{
    let mut s = format_rfc3339_millis(t);
    let ghost stamp = s@;
    s.append("_");
    s.append(suffix);
    proof {
        assert(s@ =~= snapshot_name_of(t, suffix@));
        reveal_strlit("_");
        assert(s@[stamp.len() as int] == '_');
        assert forall|j: int| 0 <= j < stamp.len() implies s@[j] != '_' by {
            assert(s@[j] == stamp[j]);
        }
        lemma_first_index_is(s@, '_', stamp.len() as int);
        assert(timestamp_token(s@) =~= stamp);
    }
    s
}

/// Law: the snapshot directory name is a function of the instant and the
/// suffix alone, so naming the same instant with the same suffix twice yields
/// the same name.
pub proof fn lemma_naming_deterministic(t: i64, suffix: Seq<char>, a: Seq<char>, b: Seq<char>)
    requires
        a == snapshot_name_of(t, suffix),
        b == snapshot_name_of(t, suffix),
    ensures
        a == b,
{
}

} // verus!
