//! Newline-delimited record framing for execution windows (the training-data format):
//! one serialized window per line; blank lines are ignored when reading back.

use vstd::prelude::*;
use vstd::string::StringExecFns;

verus! {

/// Where serialized windows are written.
pub struct ArrowSerializer {
    output_path: String,
}

impl ArrowSerializer {
    pub closed spec fn spec_output_path(&self) -> Seq<char> {
        self.output_path@
    }

    pub fn new(output_path: &str) -> (s: Self)
        ensures
            s.spec_output_path() == output_path@,
    {
        ArrowSerializer { output_path: String::from_str(output_path) }
    }

    pub fn output_path(&self) -> (p: &str)
        ensures
            p@ == self.spec_output_path(),
    {
        self.output_path.as_str()
    }
}

/// The framed form of a batch: each record followed by a newline.
pub open spec fn framed(records: Seq<Seq<char>>) -> Seq<char>
    decreases records.len(),
{
    if records.len() == 0 {
        Seq::empty()
    } else {
        framed(records.drop_last()) + records.last().push('\n')
    }
}

/// Frames serialized records as newline-delimited lines.
pub fn frame_records(records: &Vec<Vec<char>>) -> (out: Vec<char>)
    ensures
        out@ == framed(records@.map_values(|r: Vec<char>| r@)),
{
    let mut out: Vec<char> = Vec::new();
    let n = records.len();
    let mut i: usize = 0;
    while i < n
        invariant
            n == records@.len(),
            i <= n,
            out@ == framed(records@.take(i as int).map_values(|r: Vec<char>| r@)),
        decreases n - i,
    {
        let rec = &records[i];
        let ghost before = out@;
        let mut k: usize = 0;
        while k < rec.len()
            invariant
                k <= rec@.len(),
                out@ == before + rec@.take(k as int),
            decreases rec@.len() - k,
        {
            out.push(rec[k]);
            assert(rec@.take(k + 1) =~= rec@.take(k as int).push(rec@[k as int]));
            assert(out@ =~= before + rec@.take(k + 1));
            k = k + 1;
        }
        out.push('\n');
        proof {
            let m = records@.take(i + 1).map_values(|r: Vec<char>| r@);
            assert(m.drop_last() =~= records@.take(i as int).map_values(|r: Vec<char>| r@));
            assert(rec@.take(rec@.len() as int) =~= rec@);
            assert(out@ =~= before + rec@.push('\n'));
        }
        i = i + 1;
    }
    assert(records@.take(n as int) =~= records@);
    out
}

/// Unicode `White_Space` characters (what `char::is_whitespace` accepts).
pub open spec fn is_whitespace_char(c: char) -> bool {
    ||| ('\u{9}' <= c && c <= '\u{d}')
    ||| c == ' '
    ||| c == '\u{85}'
    ||| c == '\u{a0}'
    ||| c == '\u{1680}'
    ||| ('\u{2000}' <= c && c <= '\u{200a}')
    ||| c == '\u{2028}'
    ||| c == '\u{2029}'
    ||| c == '\u{202f}'
    ||| c == '\u{205f}'
    ||| c == '\u{3000}'
}

pub open spec fn is_blank(line: Seq<char>) -> bool {
    forall|k: int| 0 <= k < line.len() ==> is_whitespace_char(#[trigger] line[k])
}

/// A line ended by a newline loses one trailing carriage return.
pub open spec fn strip_cr(line: Seq<char>) -> Seq<char> {
    if line.len() > 0 && line.last() == '\r' { line.drop_last() } else { line }
}

/// Reading the first `i` characters: the non-blank complete lines so far, and the line
/// being read.
pub open spec fn scan_lines(content: Seq<char>, i: int) -> (Seq<Seq<char>>, Seq<char>)
    decreases i,
{
    if i <= 0 {
        (Seq::empty(), Seq::empty())
    } else {
        let (done, cur) = scan_lines(content, i - 1);
        if content[i - 1] == '\n' {
            if is_blank(strip_cr(cur)) { (done, Seq::empty()) } else { (done.push(strip_cr(cur)), Seq::empty()) }
        } else {
            (done, cur.push(content[i - 1]))
        }
    }
}

/// The non-blank lines of `content`, in order: lines end at `\n` (a `\r` before it is
/// dropped); a last line without newline counts too.
pub open spec fn spec_records(content: Seq<char>) -> Seq<Seq<char>> {
    let (done, cur) = scan_lines(content, content.len() as int);
    if is_blank(cur) { done } else { done.push(cur) }
}

fn is_whitespace(c: char) -> (b: bool)
    ensures
        b == is_whitespace_char(c),
{
    ('\u{9}' <= c && c <= '\u{d}') || c == ' ' || c == '\u{85}' || c == '\u{a0}' || c == '\u{1680}'
        || ('\u{2000}' <= c && c <= '\u{200a}') || c == '\u{2028}' || c == '\u{2029}' || c == '\u{202f}'
        || c == '\u{205f}' || c == '\u{3000}'
}

fn blank(line: &Vec<char>) -> (b: bool)
    ensures
        b == is_blank(line@),
{
    let mut k: usize = 0;
    while k < line.len()
        invariant
            k <= line@.len(),
            forall|m: int| 0 <= m < k ==> is_whitespace_char(#[trigger] line@[m]),
        decreases line@.len() - k,
    {
        if !is_whitespace(line[k]) {
            return false;
        }
        k = k + 1;
    }
    true
}

/// Splits newline-delimited content into its non-blank records.
pub fn split_records(content: &[char]) -> (records: Vec<Vec<char>>)
    ensures
        records@.map_values(|r: Vec<char>| r@) == spec_records(content@),
{
    let mut records: Vec<Vec<char>> = Vec::new();
    let mut cur: Vec<char> = Vec::new();
    let n = content.len();
    let mut i: usize = 0;
    while i < n
        invariant
            n == content@.len(),
            i <= n,
            records@.map_values(|r: Vec<char>| r@) == scan_lines(content@, i as int).0,
            cur@ == scan_lines(content@, i as int).1,
        decreases n - i,
    {
        let c = content[i];
        let ghost before = records@;
        if c == '\n' {
            let mut line = cur;
            if line.len() > 0 && line[line.len() - 1] == '\r' {
                line.pop();
            }
            assert(line@ == strip_cr(scan_lines(content@, i as int).1));
            if !blank(&line) {
                records.push(line);
                assert(records@.map_values(|r: Vec<char>| r@) =~= before.map_values(|r: Vec<char>| r@).push(line@));
            }
            cur = Vec::new();
        } else {
            cur.push(c);
        }
        i = i + 1;
    }
    if !blank(&cur) {
        let ghost before = records@;
        records.push(cur);
        assert(records@.map_values(|r: Vec<char>| r@) =~= before.map_values(|r: Vec<char>| r@).push(cur@));
    }
    records
}

/// A record that survives framing: not blank, no newline, not ending in a carriage return.
pub open spec fn is_plain_record(r: Seq<char>) -> bool {
    &&& !is_blank(r)
    &&& !r.contains('\n')
    &&& !(r.len() > 0 && r.last() == '\r')
}

proof fn lemma_scan_prefix(c1: Seq<char>, c2: Seq<char>, i: int)
    requires
        0 <= i <= c1.len(),
    ensures
        scan_lines(c1 + c2, i) == scan_lines(c1, i),
    decreases i,
{
    if i > 0 {
        lemma_scan_prefix(c1, c2, i - 1);
        assert((c1 + c2)[i - 1] == c1[i - 1]);
    }
}

proof fn lemma_scan_line(c: Seq<char>, base: int, r: Seq<char>, j: int)
    requires
        0 <= base,
        0 <= j <= r.len(),
        base + r.len() <= c.len(),
        c.subrange(base, base + r.len()) == r,
        !r.contains('\n'),
        scan_lines(c, base).1 == Seq::<char>::empty(),
    ensures
        scan_lines(c, base + j) == (scan_lines(c, base).0, r.take(j)),
    decreases j,
{
    if j > 0 {
        lemma_scan_line(c, base, r, j - 1);
        assert(c[base + j - 1] == c.subrange(base, base + r.len())[j - 1]);
        assert(c[base + j - 1] == r[j - 1]);
        if r[j - 1] == '\n' {
            assert(r.contains('\n'));
        }
        assert(r.take(j - 1).push(r[j - 1]) =~= r.take(j));
    } else {
        assert(r.take(0) =~= Seq::<char>::empty());
    }
}

proof fn lemma_scan_framed(rs: Seq<Seq<char>>)
    requires
        forall|k: int| 0 <= k < rs.len() ==> is_plain_record(#[trigger] rs[k]),
    ensures
        scan_lines(framed(rs), framed(rs).len() as int) == (rs, Seq::<char>::empty()),
    decreases rs.len(),
{
    if rs.len() > 0 {
        let p = rs.drop_last();
        let r = rs.last();
        assert(is_plain_record(rs[rs.len() - 1]));
        assert forall|k: int| 0 <= k < p.len() implies is_plain_record(#[trigger] p[k]) by {
            assert(p[k] == rs[k]);
        }
        lemma_scan_framed(p);
        let f = framed(p);
        let c = framed(rs);
        assert(c == f + r.push('\n'));
        lemma_scan_prefix(f, r.push('\n'), f.len() as int);
        assert(c.subrange(f.len() as int, (f.len() + r.len()) as int) =~= r);
        lemma_scan_line(c, f.len() as int, r, r.len() as int);
        assert(r.take(r.len() as int) =~= r);
        assert(c[(f.len() + r.len()) as int] == '\n');
        assert(strip_cr(r) == r);
        assert(rs =~= p.push(r));
    }
}

/// Reading back framed records gives exactly the records, when each record is plain
/// (not blank, no newline, no trailing carriage return) — as serialized windows are.
pub proof fn lemma_framing_roundtrip(rs: Seq<Seq<char>>)
    requires
        forall|k: int| 0 <= k < rs.len() ==> is_plain_record(#[trigger] rs[k]),
    ensures
        spec_records(framed(rs)) == rs,
{
    lemma_scan_framed(rs);
}

} // verus!
