//! The SubRip (`.srt`) importer: blank-line-delimited blocks decoded into
//! index / time-range / text records, used to seed a document.

use vstd::prelude::*;
use crate::decode::{spec_strip, strip_line_ending};
use crate::doc::AssFile;
use crate::error::AssError;
use crate::text::{split_char, spec_split};

verus! {

/// One SubRip entry: the index line kept verbatim (not validated numeric),
/// the two raw timestamp strings, and the block's remaining lines
/// concatenated with nothing between them.
#[derive(Debug, PartialEq)]
pub struct SrtData {
    pub index: String,
    pub start: String,
    pub end: String,
    pub text: String,
}

/// The mathematical value of one SubRip entry.
#[verifier::ext_equal]
pub struct SrtDataView {
    pub index: Seq<char>,
    pub start: Seq<char>,
    pub end: Seq<char>,
    pub text: Seq<char>,
}

impl View for SrtData {
    type V = SrtDataView;

    open spec fn view(&self) -> SrtDataView {
        SrtDataView { index: self.index@, start: self.start@, end: self.end@, text: self.text@ }
    }
}

impl DeepView for SrtData {
    type V = SrtDataView;

    open spec fn deep_view(&self) -> SrtDataView {
        self.view()
    }
}

impl Clone for SrtData {
    fn clone(&self) -> (r: Self)
        ensures
            r == *self,
    {
        SrtData {
            index: self.index.clone(),
            start: self.start.clone(),
            end: self.end.clone(),
            text: self.text.clone(),
        }
    }
}

impl SrtData {
    /// An entry with every field empty.
    pub fn new() -> (r: SrtData)
        ensures
            r@ == (SrtDataView {
                index: Seq::<char>::empty(),
                start: Seq::<char>::empty(),
                end: Seq::<char>::empty(),
                text: Seq::<char>::empty(),
            }),
    {
        let r = SrtData {
            index: String::new(),
            start: String::new(),
            end: String::new(),
            text: String::new(),
        };
        proof {
            assert(r@ =~= (SrtDataView {
                index: Seq::<char>::empty(),
                start: Seq::<char>::empty(),
                end: Seq::<char>::empty(),
                text: Seq::<char>::empty(),
            }));
        }
        r
    }
}

// ---------- the line and block structure ----------

/// The lines of SubRip text: split on newlines, one trailing empty piece
/// dropped, each line normalized of a trailing carriage return.
pub open spec fn spec_srt_lines(text: Seq<char>) -> Seq<Seq<char>> {
    let parts = spec_split(text, '\n');
    let trimmed = if parts.len() > 0 && parts.last().len() == 0 {
        parts.drop_last()
    } else {
        parts
    };
    trimmed.map_values(|l: Seq<char>| spec_strip(l))
}

/// The blank-line-delimited blocks: a blank line closes the block gathered
/// so far (possibly an empty one), and when the lines run out a non-empty
/// gathered block still counts as the final block, so text whose last
/// block no blank line closes loses nothing.  The empty blocks that
/// adjacent blank lines produce are dropped later, at decoding.
pub open spec fn spec_blocks_from(lines: Seq<Seq<char>>, cur: Seq<Seq<char>>) -> Seq<
    Seq<Seq<char>>,
>
    decreases lines.len(),
{
    if lines.len() == 0 {
        if cur.len() == 0 {
            Seq::<Seq<Seq<char>>>::empty()
        } else {
            seq![cur]
        }
    } else if lines[0].len() == 0 {
        seq![cur] + spec_blocks_from(lines.drop_first(), Seq::<Seq<char>>::empty())
    } else {
        spec_blocks_from(lines.drop_first(), cur.push(lines[0]))
    }
}

pub open spec fn spec_blocks(lines: Seq<Seq<char>>) -> Seq<Seq<Seq<char>>> {
    spec_blocks_from(lines, Seq::<Seq<char>>::empty())
}

/// The lines of SubRip text, as `spec_srt_lines` gives them.
fn text_lines(s: &str) -> (r: Vec<String>)
    ensures
        r.deep_view() == spec_srt_lines(s@),
{
    let mut parts = split_char(s, '\n');
    let ghost sp = parts.deep_view();
    proof {
        crate::text::lemma_split_len(s@, '\n');
    }
    if parts.len() > 0 && parts[parts.len() - 1].unicode_len() == 0 {
        parts.pop();
        proof {
            assert(parts.deep_view() =~~= sp.drop_last());
        }
    }
    let ghost trimmed = parts.deep_view();
    let mut out: Vec<String> = Vec::new();
    let mut i: usize = 0;
    while i < parts.len()
        invariant
            0 <= i <= parts.len(),
            trimmed == parts.deep_view(),
            out.deep_view() =~~= trimmed.take(i as int).map_values(
                |l: Seq<char>| spec_strip(l),
            ),
        decreases parts.len() - i,
    {
        let ghost pre = out.deep_view();
        let stripped = strip_line_ending(parts[i].as_str());
        out.push(stripped);
        proof {
            assert(out.deep_view() =~~= pre.push(spec_strip(trimmed[i as int])));
            assert(out.deep_view() =~~= trimmed.take(i + 1).map_values(
                |l: Seq<char>| spec_strip(l),
            ));
        }
        i += 1;
    }
    proof {
        assert(trimmed.take(parts.len() as int) =~~= trimmed);
        assert(out.deep_view() =~~= spec_srt_lines(s@));
    }
    out
}

// ---------- the timestamp separator ----------

/// The literal timestamp separator of a SubRip time line.
pub open spec fn arrow() -> Seq<char> {
    seq![' ', '-', '-', '>', ' ']
}

fn arrow_str() -> (r: &'static str)
    ensures
        r@ == arrow(),
{
    let s = " --> ";
    proof {
        reveal_strlit(" --> ");
        assert(s@ =~= arrow());
    }
    s
}

/// The least index at which `pat` occurs in `s`, if it occurs at all.
pub open spec fn spec_find_sub(s: Seq<char>, pat: Seq<char>) -> Option<int>
    decreases s.len(),
{
    if pat.len() == 0 {
        Some(0int)
    } else if pat.len() > s.len() {
        None
    } else if s.take(pat.len() as int) == pat {
        Some(0int)
    } else {
        match spec_find_sub(s.drop_first(), pat) {
            None => None,
            Some(i) => Some(i + 1),
        }
    }
}

pub proof fn lemma_find_sub_some(s: Seq<char>, pat: Seq<char>)
    ensures
        (match spec_find_sub(s, pat) {
            Some(i) => 0 <= i && i + pat.len() <= s.len(),
            None => true,
        }),
    decreases s.len(),
{
    if pat.len() == 0 {
    } else if pat.len() > s.len() {
    } else if s.take(pat.len() as int) == pat {
    } else {
        lemma_find_sub_some(s.drop_first(), pat);
    }
}

/// Whether `pat` occurs in `s` starting at `j`.
fn match_at(s: &str, pat: &str, j: usize) -> (r: bool)
    requires
        j <= s@.len(),
    ensures
        r == (j + pat@.len() <= s@.len() && s@.skip(j as int).take(pat@.len() as int) == pat@),
{
    let n = s.unicode_len();
    let m = pat.unicode_len();
    if m > n || j > n - m {
        proof {
            assert(j + pat@.len() > s@.len());
        }
        return false;
    }
    let mut k: usize = 0;
    while k < m
        invariant
            0 <= k <= m,
            j + m <= n,
            n == s@.len(),
            m == pat@.len(),
            forall|t: int| 0 <= t < k ==> s@[j + t] == pat@[t],
        decreases m - k,
    {
        if s.get_char(j + k) != pat.get_char(k) {
            proof {
                assert(s@.skip(j as int).take(pat@.len() as int)[k as int] != pat@[k as int]);
            }
            return false;
        }
        k += 1;
    }
    proof {
        assert(s@.skip(j as int).take(pat@.len() as int) =~= pat@);
    }
    true
}

/// The least index at which `pat` occurs in `s`, scanning forward.
fn find_sub(s: &str, pat: &str) -> (r: Option<usize>)
    requires
        pat@.len() >= 1,
    ensures
        (match r {
            Some(j) => spec_find_sub(s@, pat@) == Some(j as int),
            None => spec_find_sub(s@, pat@) is None,
        }),
{
    let n = s.unicode_len();
    let m = pat.unicode_len();
    let mut j: usize = 0;
    proof {
        assert(s@.skip(0int) =~~= s@);
    }
    while j < n
        invariant
            0 <= j <= n,
            n == s@.len(),
            m == pat@.len(),
            m >= 1,
            spec_find_sub(s@, pat@) == (match spec_find_sub(s@.skip(j as int), pat@) {
                None => None::<int>,
                Some(k) => Some(j + k),
            }),
        decreases n - j,
    {
        proof {
            assert(s@.skip(j as int).drop_first() =~~= s@.skip(j + 1));
        }
        if match_at(s, pat, j) {
            proof {
                assert(spec_find_sub(s@.skip(j as int), pat@) == Some(0int));
            }
            return Some(j);
        }
        proof {
            let suf = s@.skip(j as int);
            if pat@.len() <= suf.len() {
                assert(suf.take(pat@.len() as int) != pat@);
            }
        }
        j += 1;
    }
    proof {
        assert(s@.skip(n as int) =~~= Seq::<char>::empty());
        assert(spec_find_sub(s@.skip(n as int), pat@) is None);
    }
    None
}

/// The two timestamp tokens of a SubRip time line: the text must split on
/// the literal ` --> ` separator into exactly two pieces.
pub open spec fn spec_parse_timestamps(ts: Seq<char>) -> Option<(Seq<char>, Seq<char>)> {
    match spec_find_sub(ts, arrow()) {
        None => None,
        Some(i) => {
            let rest = ts.skip(i + arrow().len());
            match spec_find_sub(rest, arrow()) {
                Some(_) => None,
                None => Some((ts.take(i), rest)),
            }
        },
    }
}

impl SrtData {
    /// Split a timestamp line on ` --> `; anything but exactly two tokens
    /// misses the line's fixed arity.
    pub fn parse_timestamps(&self, timestamps: &str) -> (r: Result<(String, String), AssError>)
        ensures
            (match r {
                Ok(p) => spec_parse_timestamps(timestamps@) == Some((p.0@, p.1@)),
                Err(e) => spec_parse_timestamps(timestamps@) is None && e
                    == AssError::MalformedFixedArity,
            }),
    {
        let pat = arrow_str();
        let n = timestamps.unicode_len();
        let m = pat.unicode_len();
        match find_sub(timestamps, pat) {
            None => Err(AssError::MalformedFixedArity),
            Some(i) => {
                proof {
                    lemma_find_sub_some(timestamps@, pat@);
                }
                let start = timestamps.substring_char(0, i);
                let rest = timestamps.substring_char(i + m, n);
                proof {
                    assert(start@ =~= timestamps@.take(i as int));
                    assert(rest@ =~= timestamps@.skip(i + arrow().len()));
                }
                match find_sub(rest, pat) {
                    Some(_) => Err(AssError::MalformedFixedArity),
                    None => Ok((String::from_str(start), String::from_str(rest))),
                }
            },
        }
    }
}

// ---------- blocks to entries ----------

/// A block's trailing lines concatenated, with nothing inserted between
/// them.
pub open spec fn spec_concat_texts(ls: Seq<Seq<char>>) -> Seq<char>
    decreases ls.len(),
{
    if ls.len() == 0 {
        Seq::<char>::empty()
    } else {
        spec_concat_texts(ls.drop_last()) + ls.last()
    }
}

/// The entries of the block list, in order.  An empty block (from adjacent
/// blank lines, or a blank line at the very start) is dropped; a
/// block without a timestamp line, or whose timestamp line does not split
/// into exactly two tokens, misses its fixed arity.
pub open spec fn spec_srt_entries(blocks: Seq<Seq<Seq<char>>>) -> Result<Seq<SrtDataView>, AssError>
    decreases blocks.len(),
{
    if blocks.len() == 0 {
        Ok(Seq::<SrtDataView>::empty())
    } else {
        let b = blocks[0];
        if b.len() == 0 {
            spec_srt_entries(blocks.drop_first())
        } else if b.len() == 1 {
            Err(AssError::MalformedFixedArity)
        } else {
            match spec_parse_timestamps(b[1]) {
                None => Err(AssError::MalformedFixedArity),
                Some(se) => match spec_srt_entries(blocks.drop_first()) {
                    Err(e) => Err(e),
                    Ok(es) => Ok(
                        seq![
                            SrtDataView {
                                index: b[0],
                                start: se.0,
                                end: se.1,
                                text: spec_concat_texts(b.skip(2)),
                            },
                        ] + es,
                    ),
                },
            }
        }
    }
}

/// The whole import: lines, then blocks, then entries.
pub open spec fn spec_parse_srt(text: Seq<char>) -> Result<Seq<SrtDataView>, AssError> {
    spec_srt_entries(spec_blocks(spec_srt_lines(text)))
}

impl SrtData {
    /// Split SubRip text into its blank-line-delimited blocks of non-blank
    /// lines.
    pub fn get_srt_segments(&self, srt_data: &str) -> (r: Vec<Vec<String>>)
        ensures
            r.deep_view() == spec_blocks(spec_srt_lines(srt_data@)),
    {
        let lines = text_lines(srt_data);
        let ghost lv = lines.deep_view();
        let n = lines.len();
        let mut segments: Vec<Vec<String>> = Vec::new();
        let mut current: Vec<String> = Vec::new();
        let mut i: usize = 0;
        proof {
            assert(lv.skip(0int) =~~= lv);
            assert(current.deep_view() =~~= Seq::<Seq<char>>::empty());
            assert(segments.deep_view() + spec_blocks_from(lv, current.deep_view())
                =~~= spec_blocks_from(lv, current.deep_view()));
        }
        while i < n
            invariant
                0 <= i <= n,
                n == lv.len(),
                lv == lines.deep_view(),
                spec_blocks(lv) == segments.deep_view() + spec_blocks_from(
                    lv.skip(i as int),
                    current.deep_view(),
                ),
            decreases n - i,
        {
            proof {
                assert(lv.skip(i as int)[0] == lv[i as int]);
                assert(lv.skip(i as int).drop_first() =~~= lv.skip(i + 1));
            }
            if lines[i].as_str().unicode_len() == 0 {
                let ghost segs = segments.deep_view();
                let ghost cur = current.deep_view();
                segments.push(current);
                current = Vec::new();
                proof {
                    assert(current.deep_view() =~~= Seq::<Seq<char>>::empty());
                    assert(segments.deep_view() =~~= segs.push(cur));
                    assert(spec_blocks_from(lv.skip(i as int), cur) == seq![cur]
                        + spec_blocks_from(lv.skip(i + 1), Seq::<Seq<char>>::empty()));
                    assert(segs.push(cur) + spec_blocks_from(lv.skip(i + 1), current.deep_view())
                        =~~= segs + spec_blocks_from(lv.skip(i as int), cur));
                }
            } else {
                let ghost cur = current.deep_view();
                current.push(lines[i].clone());
                proof {
                    assert(current.deep_view() =~~= cur.push(lv[i as int]));
                    assert(spec_blocks_from(lv.skip(i as int), cur) == spec_blocks_from(
                        lv.skip(i + 1),
                        cur.push(lv[i as int]),
                    ));
                }
            }
            i += 1;
        }
        proof {
            assert(lv.skip(n as int) =~~= Seq::<Seq<char>>::empty());
        }
        if current.len() > 0 {
            let ghost segs = segments.deep_view();
            let ghost cur = current.deep_view();
            segments.push(current);
            proof {
                assert(cur.len() > 0);
                assert(spec_blocks_from(lv.skip(n as int), cur) == seq![cur]);
                assert(segments.deep_view() =~~= segs.push(cur));
                assert(segs.push(cur) =~~= segs + seq![cur]);
            }
        } else {
            proof {
                assert(current.deep_view().len() == 0);
                assert(spec_blocks_from(lv.skip(n as int), current.deep_view())
                    =~~= Seq::<Seq<Seq<char>>>::empty());
                assert(segments.deep_view() + Seq::<Seq<Seq<char>>>::empty()
                    =~~= segments.deep_view());
            }
        }
        segments
    }

    /// Decode a block list into entries.
    pub fn get_srt(&self, srt_data: Vec<Vec<String>>) -> (r: Result<Vec<SrtData>, AssError>)
        ensures
            (match r {
                Ok(v) => spec_srt_entries(srt_data.deep_view()) == Ok::<_, AssError>(
                    v.deep_view(),
                ),
                Err(e) => spec_srt_entries(srt_data.deep_view()) == Err::<Seq<SrtDataView>, _>(e),
            }),
    {
        let ghost bv = srt_data.deep_view();
        let n = srt_data.len();
        let mut out: Vec<SrtData> = Vec::new();
        let mut i: usize = 0;
        proof {
            assert(bv.skip(0int) =~~= bv);
            match spec_srt_entries(bv) {
                Ok(es) => {
                    assert(out.deep_view() + es =~~= es);
                },
                Err(_) => {},
            }
        }
        while i < n
            invariant
                0 <= i <= n,
                n == bv.len(),
                bv == srt_data.deep_view(),
                spec_srt_entries(bv) == (match spec_srt_entries(bv.skip(i as int)) {
                    Ok(es) => Ok::<_, AssError>(out.deep_view() + es),
                    Err(e) => Err::<Seq<SrtDataView>, _>(e),
                }),
            decreases n - i,
        {
            proof {
                assert(bv.skip(i as int)[0] == bv[i as int]);
                assert(bv.skip(i as int).drop_first() =~~= bv.skip(i + 1));
            }
            let block = &srt_data[i];
            let ghost b = bv[i as int];
            if block.len() == 0 {
            } else if block.len() == 1 {
                return Err(AssError::MalformedFixedArity);
            } else {
                let ts = self.parse_timestamps(block[1].as_str());
                match ts {
                    Err(e) => {
                        return Err(e);
                    },
                    Ok(se) => {
                        let mut text = String::new();
                        let mut j: usize = 2;
                        proof {
                            assert(b.subrange(2, 2) =~~= Seq::<Seq<char>>::empty());
                        }
                        while j < block.len()
                            invariant
                                2 <= j <= block.len(),
                                b == bv[i as int],
                                0 <= i < bv.len(),
                                bv == srt_data.deep_view(),
                                block == &srt_data[i as int],
                                b.len() == block@.len(),
                                text@ == spec_concat_texts(b.subrange(2, j as int)),
                            decreases block.len() - j,
                        {
                            text.append(block[j].as_str());
                            proof {
                                assert(b.subrange(2, j + 1).drop_last() =~~= b.subrange(
                                    2,
                                    j as int,
                                ));
                                assert(b.subrange(2, j + 1).last() == b[j as int]);
                            }
                            j += 1;
                        }
                        let entry = SrtData {
                            index: block[0].clone(),
                            start: se.0,
                            end: se.1,
                            text,
                        };
                        let ghost pre = out.deep_view();
                        out.push(entry);
                        proof {
                            assert(b.subrange(2, b.len() as int) =~~= b.skip(2));
                            let tsv = spec_parse_timestamps(b[1])->0;
                            assert(entry@ =~= (SrtDataView {
                                index: b[0],
                                start: tsv.0,
                                end: tsv.1,
                                text: spec_concat_texts(b.skip(2)),
                            }));
                            assert(out.deep_view() =~~= pre.push(entry@));
                            assert(forall|es: Seq<SrtDataView>|
                                pre + (#[trigger] (seq![entry@] + es)) =~~= pre.push(entry@) + es);
                        }
                    },
                }
            }
            i += 1;
        }
        proof {
            assert(bv.skip(n as int) =~~= Seq::<Seq<Seq<char>>>::empty());
            assert(out.deep_view() + Seq::<SrtDataView>::empty() =~~= out.deep_view());
        }
        Ok(out)
    }

    /// Decode whole SubRip text into its ordered entries.
    pub fn parse_srt(&self, contents: &str) -> (r: Result<Vec<SrtData>, AssError>)
        ensures
            (match r {
                Ok(v) => spec_parse_srt(contents@) == Ok::<_, AssError>(v.deep_view()),
                Err(e) => spec_parse_srt(contents@) == Err::<Seq<SrtDataView>, _>(e),
            }),
    {
        let segments = self.get_srt_segments(contents);
        self.get_srt(segments)
    }
}

// ---------- the read-only view over an import ----------

/// A finished SubRip import: a read-only ordered sequence of entries.
#[derive(Debug, PartialEq)]
pub struct Srt {
    pub srt_data: Vec<SrtData>,
}

impl View for Srt {
    type V = Seq<SrtDataView>;

    open spec fn view(&self) -> Seq<SrtDataView> {
        self.srt_data.deep_view()
    }
}

impl Srt {
    /// The imported entries, in order, for the caller to walk.
    pub fn iter(&self) -> (r: &Vec<SrtData>)
        ensures
            *r == self.srt_data,
            r.deep_view() == self@,
    {
        &self.srt_data
    }
}

impl AssFile {
    /// Import SubRip text as an `Srt`.  Reading the text from disk is the
    /// caller's business; this is the whole decode.
    pub fn from_srt(contents: &str) -> (r: Result<Srt, AssError>)
        ensures
            (match r {
                Ok(s) => spec_parse_srt(contents@) == Ok::<_, AssError>(s@),
                Err(e) => spec_parse_srt(contents@) == Err::<Seq<SrtDataView>, _>(e),
            }),
    {
        let srtdata = SrtData::new();
        match srtdata.parse_srt(contents) {
            Ok(v) => Ok(Srt { srt_data: v }),
            Err(e) => Err(e),
        }
    }
}

} // verus!
