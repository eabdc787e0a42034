//! The frecency cache file: one `id<TAB>score<TAB>last_access` line per
//! entry after a comment header; reading ignores comments, blank lines and
//! lines with fewer than three fields.

use vstd::prelude::*;
use crate::text::{
    chars_of, string_from, trim_chars, trim, trim_start, trim_end, is_space, decimal,
    u64_to_decimal, parse_u64, parse_u64_spec, lemma_parse_decimal, push_char,
};

verus! {

/// `s` cut at each `sep`, as `str::split` with a character does: one more
/// part than there are separators, empty parts included.
pub open spec fn split_char(s: Seq<char>, sep: char) -> Seq<Seq<char>>
    decreases s.len(),
{
    if s.len() == 0 {
        seq![Seq::empty()]
    } else if s[0] == sep {
        seq![Seq::<char>::empty()] + split_char(s.drop_first(), sep)
    } else {
        let r = split_char(s.drop_first(), sep);
        r.update(0, seq![s[0]] + r[0])
    }
}

proof fn lemma_split_nonempty(s: Seq<char>, sep: char)
    ensures
        split_char(s, sep).len() >= 1,
    decreases s.len(),
{
    if s.len() > 0 {
        lemma_split_nonempty(s.drop_first(), sep);
    }
}

/// The parts of `s` when the part under construction starts with `cur`.
spec fn split_from(cur: Seq<char>, s: Seq<char>, sep: char) -> Seq<Seq<char>> {
    let r = split_char(s, sep);
    r.update(0, cur + r[0])
}

/// The parts of `s` between occurrences of `sep`.
pub fn split_chars(s: &[char], sep: char) -> (parts: Vec<Vec<char>>)
    ensures
        parts@.map_values(|p: Vec<char>| p@) == split_char(s@, sep),
{
    let mut parts: Vec<Vec<char>> = Vec::new();
    let mut cur: Vec<char> = Vec::new();
    let mut i: usize = 0;
    proof {
        lemma_split_nonempty(s@, sep);
        assert(s@.skip(0) =~= s@);
        let r = split_char(s@, sep);
        assert(r.update(0, Seq::<char>::empty() + r[0]) =~= r);
        assert(parts@.map_values(|p: Vec<char>| p@) + split_from(cur@, s@.skip(0), sep) =~= r);
    }
    while i < s.len()
        invariant
            i <= s@.len(),
            parts@.map_values(|p: Vec<char>| p@) + split_from(cur@, s@.skip(i as int), sep)
                == split_char(s@, sep),
        decreases s@.len() - i,
    {
        let ghost rest = s@.skip(i as int);
        assert(rest.drop_first() =~= s@.skip(i + 1));
        proof {
            lemma_split_nonempty(rest.drop_first(), sep);
        }
        if s[i] == sep {
            let ghost old_parts = parts@.map_values(|p: Vec<char>| p@);
            let ghost old_cur = cur@;
            let done = cur;
            parts.push(done);
            cur = Vec::new();
            proof {
                let r = split_char(rest.drop_first(), sep);
                assert(split_char(rest, sep) =~= seq![Seq::<char>::empty()] + r);
                assert(r.update(0, Seq::<char>::empty() + r[0]) =~= r);
                assert(parts@.map_values(|p: Vec<char>| p@) =~= old_parts.push(old_cur));
                assert(old_parts + split_from(old_cur, rest, sep) =~= parts@.map_values(
                    |p: Vec<char>| p@,
                ) + split_from(cur@, s@.skip(i + 1), sep));
            }
        } else {
            let ghost old_cur = cur@;
            cur.push(s[i]);
            proof {
                let r = split_char(rest.drop_first(), sep);
                assert(split_char(rest, sep) == r.update(0, seq![rest[0]] + r[0]));
                assert(rest[0] == s@[i as int]);
                assert(old_cur + (seq![rest[0]] + r[0]) =~= cur@ + r[0]);
                assert(split_from(old_cur, rest, sep) =~= split_from(cur@, s@.skip(i + 1), sep));
            }
        }
        i = i + 1;
    }
    proof {
        assert(s@.skip(i as int) =~= Seq::<char>::empty());
        assert(split_from(cur@, Seq::<char>::empty(), sep) =~= seq![cur@]);
    }
    let ghost before = parts@.map_values(|p: Vec<char>| p@);
    parts.push(cur);
    assert(parts@.map_values(|p: Vec<char>| p@) =~= before.push(parts@[parts@.len() - 1]@));
    parts
}

/// One entry of the cache: the item id, the score as written, and the time
/// of the last access in seconds since the Unix epoch.
pub struct CacheRecord {
    pub id: String,
    pub score: String,
    pub last_access: u64,
}

/// The abstract value of a [`CacheRecord`].
pub struct CacheRecordView {
    pub id: Seq<char>,
    pub score: Seq<char>,
    pub last_access: u64,
}

impl View for CacheRecord {
    type V = CacheRecordView;

    open spec fn view(&self) -> CacheRecordView {
        CacheRecordView { id: self.id@, score: self.score@, last_access: self.last_access }
    }
}

/// The entry a line of the cache holds: none for a blank or comment line or
/// one with fewer than three tab-separated fields; otherwise the first field
/// is the id, the second the score, and the third the last access (0 where
/// it is not a number).
pub open spec fn parse_line_view(line: Seq<char>) -> Option<CacheRecordView> {
    let t = trim(line);
    if t.len() == 0 || t[0] == '#' {
        None
    } else {
        let parts = split_char(t, '\t');
        if parts.len() >= 3 {
            Some(
                CacheRecordView {
                    id: parts[0],
                    score: parts[1],
                    last_access: match parse_u64_spec(parts[2]) {
                        Some(n) => n,
                        None => 0,
                    },
                },
            )
        } else {
            None
        }
    }
}

/// The entry a line of the cache holds, as [`parse_line_view`] states.
fn parse_line_chars(line: &[char]) -> (r: Option<CacheRecord>)
    ensures
        match r {
            Some(rec) => parse_line_view(line@) == Some(rec@),
            None => parse_line_view(line@) is None,
        },
{
    let t = trim_chars(line);
    if t.len() == 0 || t[0] == '#' {
        return None;
    }
    let parts = split_chars(&t, '\t');
    assert(parts@.len() == split_char(t@, '\t').len());
    if parts.len() < 3 {
        return None;
    }
    assert(parts@[0]@ == split_char(t@, '\t')[0]);
    assert(parts@[1]@ == split_char(t@, '\t')[1]);
    assert(parts@[2]@ == split_char(t@, '\t')[2]);
    let last_access = match parse_u64(&parts[2]) {
        Some(n) => n,
        None => 0,
    };
    Some(
        CacheRecord {
            id: string_from(&parts[0]),
            score: string_from(&parts[1]),
            last_access,
        },
    )
}

/// Parse one line of the cache file.
pub fn parse_cache_line(line: &str) -> (r: Option<CacheRecord>)
    ensures
        match r {
            Some(rec) => parse_line_view(line@) == Some(rec@),
            None => parse_line_view(line@) is None,
        },
{
    let chars = chars_of(line);
    parse_line_chars(&chars)
}

/// The entries one line holds: none or one.
pub open spec fn line_records(line: Seq<char>) -> Seq<CacheRecordView> {
    match parse_line_view(line) {
        Some(r) => seq![r],
        None => Seq::empty(),
    }
}

/// The entries that a sequence of lines holds, in order.
pub open spec fn records_of(lines: Seq<Seq<char>>) -> Seq<CacheRecordView>
    decreases lines.len(),
{
    if lines.len() == 0 {
        Seq::empty()
    } else {
        line_records(lines[0]) + records_of(lines.drop_first())
    }
}

/// The entries that the text of a cache file holds, line by line.
pub open spec fn parse_cache_view(text: Seq<char>) -> Seq<CacheRecordView> {
    records_of(split_char(text, '\n'))
}

proof fn lemma_records_of_push(lines: Seq<Seq<char>>, line: Seq<char>)
    ensures
        records_of(lines.push(line)) == records_of(lines) + line_records(line),
    decreases lines.len(),
{
    if lines.len() > 0 {
        lemma_records_of_push(lines.drop_first(), line);
        assert(lines.push(line).drop_first() =~= lines.drop_first().push(line));
        assert(lines.push(line)[0] == lines[0]);
    } else {
        assert(lines.push(line).drop_first() =~= Seq::<Seq<char>>::empty());
        assert(lines.push(line)[0] == line);
        assert(records_of(Seq::<Seq<char>>::empty()) == Seq::<CacheRecordView>::empty());
    }
    let tail = line_records(line);
    if lines.len() > 0 {
        let head = line_records(lines[0]);
        assert(head + (records_of(lines.drop_first()) + tail) =~= (head + records_of(
            lines.drop_first(),
        )) + tail);
    } else {
        assert(records_of(lines) =~= Seq::<CacheRecordView>::empty());
        assert(Seq::<CacheRecordView>::empty() + tail =~= tail);
        assert(tail + Seq::<CacheRecordView>::empty() =~= tail);
    }
}

/// Read the entries of a cache file's text.
pub fn parse_cache(text: &str) -> (r: Vec<CacheRecord>)
    ensures
        r@.map_values(|c: CacheRecord| c@) == parse_cache_view(text@),
{
    let chars = chars_of(text);
    let lines = split_chars(&chars, '\n');
    let ghost lv = lines@.map_values(|p: Vec<char>| p@);
    let mut r: Vec<CacheRecord> = Vec::new();
    let mut i: usize = 0;
    while i < lines.len()
        invariant
            i <= lines@.len(),
            lv == lines@.map_values(|p: Vec<char>| p@),
            r@.map_values(|c: CacheRecord| c@) == records_of(lv.take(i as int)),
        decreases lines@.len() - i,
    {
        let ghost before = r@.map_values(|c: CacheRecord| c@);
        proof {
            lemma_records_of_push(lv.take(i as int), lv[i as int]);
            assert(lv.take(i + 1) =~= lv.take(i as int).push(lv[i as int]));
        }
        match parse_line_chars(&lines[i]) {
            Some(rec) => {
                r.push(rec);
                assert(r@.map_values(|c: CacheRecord| c@) =~= before + seq![r@[r@.len() - 1]@]);
            },
            None => {
                assert(before + Seq::<CacheRecordView>::empty() =~= before);
            },
        }
        i = i + 1;
    }
    assert(lv.take(lv.len() as int) =~= lv);
    r
}

/// The line that stands for an entry.
pub open spec fn format_line_view(r: CacheRecordView) -> Seq<char> {
    r.id + seq!['\t'] + r.score + seq!['\t'] + decimal(r.last_access as nat)
}

/// The comment line that starts a cache file.
pub open spec fn cache_header() -> Seq<char> {
    "# garlaunch frecency cache v1"@
}

/// The lines of the entries, each followed by a newline.
pub open spec fn format_lines_view(rs: Seq<CacheRecordView>) -> Seq<char>
    decreases rs.len(),
{
    if rs.len() == 0 {
        Seq::empty()
    } else {
        format_line_view(rs[0]) + seq!['\n'] + format_lines_view(rs.drop_first())
    }
}

/// The text of a cache file holding the given entries in order.
pub open spec fn format_cache_view(rs: Seq<CacheRecordView>) -> Seq<char> {
    cache_header() + seq!['\n'] + format_lines_view(rs)
}

proof fn lemma_format_lines_push(rs: Seq<CacheRecordView>, r: CacheRecordView)
    ensures
        format_lines_view(rs.push(r)) == format_lines_view(rs) + format_line_view(r) + seq!['\n'],
    decreases rs.len(),
{
    if rs.len() > 0 {
        lemma_format_lines_push(rs.drop_first(), r);
        assert(rs.push(r).drop_first() =~= rs.drop_first().push(r));
        assert(rs.push(r)[0] == rs[0]);
        assert(format_line_view(rs[0]) + seq!['\n'] + (format_lines_view(rs.drop_first())
            + format_line_view(r) + seq!['\n']) =~= format_line_view(rs[0]) + seq!['\n']
            + format_lines_view(rs.drop_first()) + format_line_view(r) + seq!['\n']);
    } else {
        assert(rs.push(r).drop_first() =~= Seq::<CacheRecordView>::empty());
        assert(rs.push(r)[0] == r);
        assert(format_lines_view(Seq::<CacheRecordView>::empty()) == Seq::<char>::empty());
        assert(format_lines_view(rs) == Seq::<char>::empty());
        assert(format_line_view(r) + seq!['\n'] + Seq::<char>::empty() =~= Seq::<char>::empty()
            + format_line_view(r) + seq!['\n']);
    }
}

/// Write the text of a cache file holding the given entries in order.
pub fn format_cache(records: &[CacheRecord]) -> (r: String)
    ensures
        r@ == format_cache_view(records@.map_values(|c: CacheRecord| c@)),
{
    let ghost rv = records@.map_values(|c: CacheRecord| c@);
    let mut r = "# garlaunch frecency cache v1".to_owned();
    push_char(&mut r, '\n');
    let mut i: usize = 0;
    assert(rv.take(0) =~= Seq::<CacheRecordView>::empty());
    assert(r@ =~= cache_header() + seq!['\n'] + format_lines_view(rv.take(0)));
    while i < records.len()
        invariant
            i <= records@.len(),
            rv == records@.map_values(|c: CacheRecord| c@),
            r@ == cache_header() + seq!['\n'] + format_lines_view(rv.take(i as int)),
        decreases records@.len() - i,
    {
        let rec = &records[i];
        let ghost before = r@;
        r.append(rec.id.as_str());
        push_char(&mut r, '\t');
        r.append(rec.score.as_str());
        push_char(&mut r, '\t');
        r.append(u64_to_decimal(rec.last_access).as_str());
        push_char(&mut r, '\n');
        proof {
            lemma_format_lines_push(rv.take(i as int), rv[i as int]);
            assert(rv.take(i + 1) =~= rv.take(i as int).push(rv[i as int]));
            assert(r@ =~= before + format_line_view(rv[i as int]) + seq!['\n']);
        }
        i = i + 1;
    }
    assert(rv.take(rv.len() as int) =~= rv);
    r
}

/// `s` does not contain `c`.
pub open spec fn lacks(s: Seq<char>, c: char) -> bool {
    forall|i: int| 0 <= i < s.len() ==> s[i] != c
}

proof fn lemma_split_prefix(a: Seq<char>, b: Seq<char>, sep: char)
    requires
        lacks(a, sep),
    ensures
        split_char(a + seq![sep] + b, sep) == seq![a] + split_char(b, sep),
    decreases a.len(),
{
    let s = a + seq![sep] + b;
    if a.len() == 0 {
        assert(s[0] == sep);
        assert(s.drop_first() =~= b);
        assert(a =~= Seq::<char>::empty());
    } else {
        let a1 = a.drop_first();
        assert(lacks(a1, sep)) by {
            assert forall|i: int| 0 <= i < a1.len() implies a1[i] != sep by {
                assert(a1[i] == a[i + 1]);
            }
        }
        lemma_split_prefix(a1, b, sep);
        assert(s.drop_first() =~= a1 + seq![sep] + b);
        assert(s[0] == a[0]);
        let r = split_char(s.drop_first(), sep);
        assert(r == seq![a1] + split_char(b, sep));
        assert(seq![s[0]] + a1 =~= a);
        assert(r.update(0, seq![s[0]] + r[0]) =~= seq![a] + split_char(b, sep));
    }
}

proof fn lemma_split_whole(a: Seq<char>, sep: char)
    requires
        lacks(a, sep),
    ensures
        split_char(a, sep) == seq![a],
    decreases a.len(),
{
    if a.len() > 0 {
        let a1 = a.drop_first();
        assert(lacks(a1, sep)) by {
            assert forall|i: int| 0 <= i < a1.len() implies a1[i] != sep by {
                assert(a1[i] == a[i + 1]);
            }
        }
        lemma_split_whole(a1, sep);
        assert(seq![a[0]] + a1 =~= a);
        assert(seq![a1].update(0, seq![a[0]] + a1) =~= seq![a]);
    } else {
        assert(a =~= Seq::<char>::empty());
    }
}

proof fn lemma_trim_unchanged(s: Seq<char>)
    requires
        s.len() > 0,
        !is_space(s[0]),
        !is_space(s.last()),
    ensures
        trim(s) == s,
{
    assert(trim_start(s) == s);
    assert(trim_end(s) == s);
}

proof fn lemma_digits_lack(n: nat, c: char)
    requires
        !('0' <= c && c <= '9'),
    ensures
        lacks(decimal(n), c),
        decimal(n).len() > 0,
        '0' <= decimal(n).last() && decimal(n).last() <= '9',
    decreases n,
{
    crate::text::lemma_decimal_is_digits(n);
    assert forall|i: int| 0 <= i < decimal(n).len() implies decimal(n)[i] != c by {
        assert(crate::text::is_digit(decimal(n)[i]));
    }
    assert(crate::text::is_digit(decimal(n)[decimal(n).len() - 1]));
}

/// An entry that survives being written and read back: a non-empty id that
/// starts with neither whitespace nor `#`, and id and score free of tabs and
/// newlines.
pub open spec fn storable(r: CacheRecordView) -> bool {
    &&& r.id.len() > 0
    &&& !is_space(r.id[0])
    &&& r.id[0] != '#'
    &&& lacks(r.id, '\t') && lacks(r.id, '\n')
    &&& lacks(r.score, '\t') && lacks(r.score, '\n')
}

proof fn lemma_line_roundtrip(r: CacheRecordView)
    requires
        storable(r),
    ensures
        parse_line_view(format_line_view(r)) == Some(r),
        lacks(format_line_view(r), '\n'),
{
    let d = decimal(r.last_access as nat);
    lemma_digits_lack(r.last_access as nat, '\t');
    lemma_digits_lack(r.last_access as nat, '\n');
    let line = format_line_view(r);
    assert(line[0] == r.id[0]);
    assert(line.last() == d.last());
    lemma_trim_unchanged(line);
    lemma_split_whole(d, '\t');
    lemma_split_prefix(r.score, d, '\t');
    assert(line =~= r.id + seq!['\t'] + (r.score + seq!['\t'] + d));
    lemma_split_prefix(r.id, r.score + seq!['\t'] + d, '\t');
    let parts = split_char(line, '\t');
    assert(parts =~= seq![r.id, r.score, d]);
    lemma_parse_decimal(r.last_access);
    assert forall|i: int| 0 <= i < line.len() implies line[i] != '\n' by {
        if i < r.id.len() {
            assert(line[i] == r.id[i]);
        } else if i == r.id.len() {
        } else if i < r.id.len() + 1 + r.score.len() {
            assert(line[i] == r.score[i - r.id.len() - 1]);
        } else if i == r.id.len() + 1 + r.score.len() {
        } else {
            assert(line[i] == d[i - r.id.len() - 2 - r.score.len()]);
        }
    }
}

proof fn lemma_records_cons(x: Seq<char>, rest: Seq<Seq<char>>)
    ensures
        records_of(seq![x] + rest) == line_records(x) + records_of(rest),
{
    let l = seq![x] + rest;
    assert(l[0] == x);
    assert(l.drop_first() =~= rest);
}

proof fn lemma_lines_roundtrip(rs: Seq<CacheRecordView>)
    requires
        forall|i: int| 0 <= i < rs.len() ==> storable(#[trigger] rs[i]),
    ensures
        records_of(split_char(format_lines_view(rs), '\n')) == rs,
    decreases rs.len(),
{
    if rs.len() == 0 {
        assert(split_char(Seq::<char>::empty(), '\n') == seq![Seq::<char>::empty()]);
        lemma_records_cons(Seq::<char>::empty(), Seq::empty());
        assert(trim(Seq::<char>::empty()) =~= Seq::<char>::empty());
        assert(records_of(Seq::<Seq<char>>::empty()) == Seq::<CacheRecordView>::empty());
        assert(Seq::<CacheRecordView>::empty() + Seq::<CacheRecordView>::empty() =~= rs);
    } else {
        let rest = rs.drop_first();
        assert(storable(rs[0]));
        assert forall|i: int| 0 <= i < rest.len() implies storable(#[trigger] rest[i]) by {
            assert(rest[i] == rs[i + 1]);
        }
        lemma_lines_roundtrip(rest);
        lemma_line_roundtrip(rs[0]);
        let line = format_line_view(rs[0]);
        lemma_split_prefix(line, format_lines_view(rest), '\n');
        lemma_records_cons(line, split_char(format_lines_view(rest), '\n'));
        assert(seq![rs[0]] + rest =~= rs);
    }
}

/// Reading back a written cache file gives the entries that were written,
/// in order, when every entry is [`storable`].
pub proof fn lemma_cache_roundtrip(rs: Seq<CacheRecordView>)
    requires
        forall|i: int| 0 <= i < rs.len() ==> storable(#[trigger] rs[i]),
    ensures
        parse_cache_view(format_cache_view(rs)) == rs,
{
    reveal_strlit("# garlaunch frecency cache v1");
    let h = cache_header();
    assert(lacks(h, '\n'));
    lemma_split_prefix(h, format_lines_view(rs), '\n');
    lemma_lines_roundtrip(rs);
    lemma_records_cons(h, split_char(format_lines_view(rs), '\n'));
    assert(!is_space(h[0]) && !is_space(h.last()));
    lemma_trim_unchanged(h);
    assert(parse_line_view(h) is None);
    assert(Seq::<CacheRecordView>::empty() + rs =~= rs);
}

} // verus!
