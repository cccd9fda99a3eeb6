//! The scan of a message body for links: each line is cut into plain text
//! and links, and the links are numbered for the reader to follow.

use vstd::prelude::*;
use vstd::string::StringExecFns;
use vstd::string::StringSliceAdditionalSpecFns;
use vstd::utf8::{
    decode_utf8, decode_utf8_split, encode_utf8, encode_utf8_decode_utf8, encode_utf8_valid_utf8,
    is_char_boundary, is_char_boundary_iff_not_is_continuation_byte,
    is_char_boundary_start_end_of_seq, valid_utf8, valid_utf8_split,
};
use crate::text::{decimal, push_decimal, texts};

verus! {

/// The byte ranges of the links that the link finder reports in a text,
/// in the order in which it reports them.
pub uninterp spec fn link_bounds(text: Seq<char>) -> Seq<(usize, usize)>;

/// A line without the carriage return that ends it, if one does.
pub open spec fn without_return(line: Seq<char>) -> Seq<char> {
    if line.len() > 0 && line.last() == '\r' {
        line.drop_last()
    } else {
        line
    }
}

/// The lines that a text has finished with a line feed, and the text after
/// the last line feed.
pub open spec fn lines_so_far(text: Seq<char>) -> (Seq<Seq<char>>, Seq<char>)
    decreases text.len(),
{
    if text.len() == 0 {
        (Seq::empty(), Seq::empty())
    } else {
        let (done, current) = lines_so_far(text.drop_last());
        if text.last() == '\n' {
            (done.push(without_return(current)), Seq::empty())
        } else {
            (done, current.push(text.last()))
        }
    }
}

/// The lines of a text. A line ends with a line feed, or with a carriage
/// return and a line feed; neither belongs to the line. What follows the
/// last line feed is a line too, unless it is empty.
pub open spec fn text_lines(text: Seq<char>) -> Seq<Seq<char>> {
    let (done, current) = lines_so_far(text);
    if current.len() > 0 {
        done.push(current)
    } else {
        done
    }
}

/// Runs `linkify::LinkFinder::new().links(text)` to its end and returns
/// each link's `start()` and `end()`. The contract only gives the list a
/// name: nothing is assumed of the ranges.
#[verifier::external_body]
fn find_links(text: &str) -> (bounds: Vec<(usize, usize)>)
    ensures
        bounds@ == link_bounds(text@),
{
    linkify::LinkFinder::new().links(text).map(|link| (link.start(), link.end())).collect()
}

/// Collects `str::lines` of the text as owned strings. The contract says
/// what the standard library documents of it: lines end with a line feed or
/// with a carriage return and a line feed, the line ending is left out, and
/// the last line needs none.
#[verifier::external_body]
fn lines_of(text: &str) -> (lines: Vec<String>)
    ensures
        texts(lines@) == text_lines(text@),
{
    text.lines().map(|line| line.to_string()).collect()
}

/// The text between two byte offsets of an encoded line.
pub open spec fn piece(bytes: Seq<u8>, from: int, to: int) -> Seq<char> {
    decode_utf8(bytes.subrange(from, to))
}

/// Where the range before range `i` ends; the line's start for the first.
pub open spec fn end_before(bounds: Seq<(usize, usize)>, i: int) -> int {
    if i <= 0 {
        0
    } else {
        bounds[i - 1].1 as int
    }
}

/// Range `i` starts no earlier than the range before it ends, ends inside
/// the line, and cuts no character in two.
pub open spec fn bound_ok(bounds: Seq<(usize, usize)>, bytes: Seq<u8>, i: int) -> bool {
    let (a, b) = bounds[i];
    &&& end_before(bounds, i) <= a <= b <= bytes.len()
    &&& is_char_boundary(bytes, a as int)
    &&& is_char_boundary(bytes, b as int)
}

/// The ranges lie in the line from left to right without overlap, each on
/// character boundaries.
pub open spec fn well_ordered(bounds: Seq<(usize, usize)>, bytes: Seq<u8>) -> bool {
    forall|i: int| 0 <= i < bounds.len() ==> bound_ok(bounds, bytes, i)
}

/// A stretch of a line: its text, and for a link its number among the
/// links of the message, counted from 1.
#[derive(Debug, Clone, PartialEq)]
pub struct Segment {
    pub text: String,
    pub link: Option<usize>,
}

impl View for Segment {
    type V = (Seq<char>, Option<nat>);

    open spec fn view(&self) -> (Seq<char>, Option<nat>) {
        (
            self.text@,
            match self.link {
                Some(n) => Some(n as nat),
                None => None,
            },
        )
    }
}

impl Segment {
    /// What the segment shows: its text, and behind a link, while links
    /// are highlighted, the link's number in square brackets.
    pub open spec fn shown_spec(&self, show_links: bool) -> Seq<char> {
        match self.link {
            Some(n) if show_links => self.text@ + " ["@ + decimal(n as nat) + "]"@,
            _ => self.text@,
        }
    }

    pub fn shown(&self, show_links: bool) -> (r: String)
        ensures
            r@ == self.shown_spec(show_links),
    {
        let mut r = self.text.clone();
        if let Some(n) = self.link {
            if show_links {
                r.append(" [");
                push_decimal(&mut r, n);
                r.append("]");
            }
        }
        r
    }
}

/// The views of a sequence of segments.
pub open spec fn segment_views(segs: Seq<Segment>) -> Seq<(Seq<char>, Option<nat>)> {
    Seq::new(segs.len(), |i: int| segs[i]@)
}

/// The texts of the segments, one after the other.
pub open spec fn joined(segs: Seq<(Seq<char>, Option<nat>)>) -> Seq<char>
    decreases segs.len(),
{
    if segs.len() == 0 {
        Seq::empty()
    } else {
        segs[0].0 + joined(segs.drop_first())
    }
}

/// The segments of the line from byte `pos` on, given that ranges `k` and
/// later are still ahead: for each range the plain text before it and the
/// link itself, and at last the plain text after the last link. Link `k`
/// of the line has number `base + k + 1`.
pub open spec fn segments_from(
    bytes: Seq<u8>,
    bounds: Seq<(usize, usize)>,
    k: int,
    pos: int,
    base: nat,
) -> Seq<(Seq<char>, Option<nat>)>
    decreases bounds.len() - k,
{
    if k < 0 || k >= bounds.len() {
        seq![(piece(bytes, pos, bytes.len() as int), None)]
    } else {
        let (a, b) = bounds[k];
        seq![
            (piece(bytes, pos, a as int), None),
            (piece(bytes, a as int, b as int), Some((base + k + 1) as nat)),
        ] + segments_from(bytes, bounds, k + 1, b as int, base)
    }
}

/// The texts of the ranges.
pub open spec fn bound_texts(bytes: Seq<u8>, bounds: Seq<(usize, usize)>) -> Seq<Seq<char>> {
    Seq::new(bounds.len(), |i: int| piece(bytes, bounds[i].0 as int, bounds[i].1 as int))
}

/// The ranges of a line that the scan cuts at: those of the link finder
/// where they are well ordered, none where they are not.
pub open spec fn usable_bounds(line: Seq<char>) -> Seq<(usize, usize)> {
    if well_ordered(link_bounds(line), encode_utf8(line)) {
        link_bounds(line)
    } else {
        Seq::empty()
    }
}

/// The segments of a line, `base` links having been found before it.
pub open spec fn line_segments(line: Seq<char>, base: nat) -> Seq<(Seq<char>, Option<nat>)> {
    segments_from(encode_utf8(line), usable_bounds(line), 0, 0, base)
}

/// The links of a line.
pub open spec fn line_links(line: Seq<char>) -> Seq<Seq<char>> {
    bound_texts(encode_utf8(line), usable_bounds(line))
}

/// The links of some lines, in order.
pub open spec fn links_of_lines(lines: Seq<Seq<char>>) -> Seq<Seq<char>>
    decreases lines.len(),
{
    if lines.len() == 0 {
        Seq::empty()
    } else {
        links_of_lines(lines.drop_last()) + line_links(lines.last())
    }
}

/// A character boundary of a line is one of the line's tail from an
/// earlier boundary on, and that tail is itself well encoded.
pub proof fn lemma_boundary_in_tail(bytes: Seq<u8>, from: int, at: int)
    requires
        valid_utf8(bytes),
        0 <= from <= at <= bytes.len(),
        is_char_boundary(bytes, from),
        is_char_boundary(bytes, at),
    ensures
        valid_utf8(bytes.subrange(from, bytes.len() as int)),
        is_char_boundary(bytes.subrange(from, bytes.len() as int), at - from),
{
    let tail = bytes.subrange(from, bytes.len() as int);
    valid_utf8_split(bytes, from);
    if from < at && at == bytes.len() {
        is_char_boundary_start_end_of_seq(tail);
    } else if from < at {
        is_char_boundary_iff_not_is_continuation_byte(bytes, at);
        is_char_boundary_iff_not_is_continuation_byte(tail, at - from);
    }
}

/// Cutting a stretch of a line at a character boundary loses nothing: the
/// texts of the two parts make the text of the whole.
pub proof fn lemma_piece_split(bytes: Seq<u8>, from: int, at: int)
    requires
        valid_utf8(bytes),
        0 <= from <= at <= bytes.len(),
        is_char_boundary(bytes, from),
        is_char_boundary(bytes, at),
    ensures
        piece(bytes, from, bytes.len() as int) == piece(bytes, from, at) + piece(
            bytes,
            at,
            bytes.len() as int,
        ),
{
    let tail = bytes.subrange(from, bytes.len() as int);
    lemma_boundary_in_tail(bytes, from, at);
    decode_utf8_split(tail, at - from);
    assert(tail.subrange(0, at - from) =~= bytes.subrange(from, at));
    assert(tail.subrange(at - from, tail.len() as int) =~= bytes.subrange(at, bytes.len() as int));
}

/// The segments of a line, joined, are the line from the point where the
/// segments start: no character is lost, added or moved.
pub proof fn lemma_segments_rejoin(
    bytes: Seq<u8>,
    bounds: Seq<(usize, usize)>,
    k: int,
    pos: int,
    base: nat,
)
    requires
        valid_utf8(bytes),
        well_ordered(bounds, bytes),
        0 <= k <= bounds.len(),
        pos == end_before(bounds, k),
    ensures
        joined(segments_from(bytes, bounds, k, pos, base)) == piece(bytes, pos, bytes.len() as int),
    decreases bounds.len() - k,
{
    let segs = segments_from(bytes, bounds, k, pos, base);
    let end = bytes.len() as int;
    if k >= bounds.len() {
        assert(joined(segs.drop_first()) =~= Seq::empty());
    } else {
        let (a, b) = bounds[k];
        assert(bound_ok(bounds, bytes, k));
        if k > 0 {
            assert(bound_ok(bounds, bytes, k - 1));
        } else {
            is_char_boundary_start_end_of_seq(bytes);
        }
        let later = segments_from(bytes, bounds, k + 1, b as int, base);
        lemma_segments_rejoin(bytes, bounds, k + 1, b as int, base);
        let s1 = segs.drop_first();
        assert(s1.drop_first() =~= later);
        assert(joined(segs) == segs[0].0 + joined(s1));
        lemma_piece_split(bytes, a as int, b as int);
        lemma_piece_split(bytes, pos, a as int);
    }
}

/// The segments of a line alternate between plain text and links, and the
/// number that a link's segment carries is the link's place in the
/// registry: link `i` of the line, counted from 0, is segment `2 * i + 1`,
/// has the text of range `i`, and has number `base + i + 1`.
pub proof fn lemma_link_numbers(
    bytes: Seq<u8>,
    bounds: Seq<(usize, usize)>,
    k: int,
    pos: int,
    base: nat,
    i: int,
)
    requires
        0 <= k <= i < bounds.len(),
    ensures
        segments_from(bytes, bounds, k, pos, base).len() == 2 * (bounds.len() - k) + 1,
        segments_from(bytes, bounds, k, pos, base)[2 * (i - k) + 1] == (
            bound_texts(bytes, bounds)[i],
            Some((base + i + 1) as nat),
        ),
    decreases bounds.len() - k,
{
    let (a, b) = bounds[k];
    let later = segments_from(bytes, bounds, k + 1, b as int, base);
    lemma_segments_len(bytes, bounds, k + 1, b as int, base);
    if k < i {
        lemma_link_numbers(bytes, bounds, k + 1, b as int, base, i);
        assert(segments_from(bytes, bounds, k, pos, base)[2 * (i - k) + 1] == later[2 * (i - k - 1)
            + 1]);
    }
}

/// A line with `n` links ahead has `2 * n + 1` segments.
pub proof fn lemma_segments_len(
    bytes: Seq<u8>,
    bounds: Seq<(usize, usize)>,
    k: int,
    pos: int,
    base: nat,
)
    requires
        0 <= k <= bounds.len(),
    ensures
        segments_from(bytes, bounds, k, pos, base).len() == 2 * (bounds.len() - k) + 1,
    decreases bounds.len() - k,
{
    if k < bounds.len() {
        lemma_segments_len(bytes, bounds, k + 1, bounds[k].1 as int, base);
    }
}

/// The segments that the scan makes of a line, joined, are the line: no
/// character is lost, added or moved, however many links the line holds
/// and whatever the link finder reports.
pub proof fn lemma_line_segments_rejoin(line: Seq<char>, base: nat)
    ensures
        joined(line_segments(line, base)) == line,
{
    let bytes = encode_utf8(line);
    encode_utf8_valid_utf8(line);
    encode_utf8_decode_utf8(line);
    lemma_segments_rejoin(bytes, usable_bounds(line), 0, 0, base);
    assert(bytes.subrange(0, bytes.len() as int) =~= bytes);
}

/// Whether the ranges lie in the line from left to right without overlap,
/// on character boundaries.
pub fn bounds_in_order(line: &str, bounds: &Vec<(usize, usize)>) -> (r: bool)
    ensures
        r == well_ordered(bounds@, line.spec_bytes()),
{
    let n: usize = line.as_bytes().len();
    let mut prev: usize = 0;
    let mut i: usize = 0;
    while i < bounds.len()
        invariant
            i <= bounds.len(),
            n == line.spec_bytes().len(),
            prev == end_before(bounds@, i as int),
            forall|j: int| 0 <= j < i ==> bound_ok(bounds@, line.spec_bytes(), j),
        decreases bounds.len() - i,
    {
        let (a, b) = bounds[i];
        if !(prev <= a && a <= b && b <= n && line.is_char_boundary(a) && line.is_char_boundary(b)) {
            proof {
                assert(!bound_ok(bounds@, line.spec_bytes(), i as int));
            }
            return false;
        }
        prev = b;
        i += 1;
    }
    true
}

/// Cuts a line at the given ranges: the plain text before each range, the
/// range itself as a link, and the plain text after the last range. Each
/// link is added to the registry `links`, and its segment carries its
/// place there, counted from 1.
pub fn segment_line(line: &str, bounds: &Vec<(usize, usize)>, links: &mut Vec<String>) -> (out: Vec<
    Segment,
>)
    requires
        well_ordered(bounds@, line.spec_bytes()),
    ensures
        segment_views(out@) == segments_from(
            line.spec_bytes(),
            bounds@,
            0,
            0,
            old(links)@.len(),
        ),
        texts(final(links)@) == texts(old(links)@) + bound_texts(line.spec_bytes(), bounds@),
        joined(segment_views(out@)) == line@,
{
    let ghost bytes = line.spec_bytes();
    let ghost end = bytes.len() as int;
    let ghost base = old(links)@.len();
    let ghost whole = segments_from(bytes, bounds@, 0, 0, base);
    let mut out: Vec<Segment> = Vec::new();
    let mut rest: &str = line;
    let mut pos: usize = 0;
    let mut k: usize = 0;
    proof {
        encode_utf8_valid_utf8(line@);
        is_char_boundary_start_end_of_seq(bytes);
    }
    while k < bounds.len()
        invariant
            bytes == line.spec_bytes(),
            end == bytes.len(),
            valid_utf8(bytes),
            well_ordered(bounds@, bytes),
            k <= bounds.len(),
            pos == end_before(bounds@, k as int),
            pos <= end,
            is_char_boundary(bytes, pos as int),
            rest.spec_bytes() == bytes.subrange(pos as int, end),
            whole == segments_from(bytes, bounds@, 0, 0, base),
            segment_views(out@) + segments_from(bytes, bounds@, k as int, pos as int, base)
                == whole,
            links@.len() == base + k,
            texts(links@) == texts(old(links)@) + bound_texts(bytes, bounds@.take(k as int)),
        decreases bounds.len() - k,
    {
        let (a, b) = bounds[k];
        proof {
            assert(bound_ok(bounds@, bytes, k as int));
            lemma_boundary_in_tail(bytes, pos as int, a as int);
        }
        let (plain, tail) = rest.split_at(a - pos);
        proof {
            assert(plain.spec_bytes() =~= bytes.subrange(pos as int, a as int));
            assert(tail.spec_bytes() =~= bytes.subrange(a as int, end));
            lemma_boundary_in_tail(bytes, a as int, b as int);
        }
        let (link, after) = tail.split_at(b - a);
        proof {
            assert(link.spec_bytes() =~= bytes.subrange(a as int, b as int));
            encode_utf8_decode_utf8(plain@);
            encode_utf8_decode_utf8(link@);
        }
        let ghost links_before = links@;
        links.push(String::from_str(link));
        out.push(Segment { text: String::from_str(plain), link: None });
        out.push(Segment { text: String::from_str(link), link: Some(links.len()) });
        proof {
            assert(texts(links@) =~= texts(links_before).push(link@));
        }
        rest = after;
        pos = b;
        k += 1;
    }
    out.push(Segment { text: String::from_str(rest), link: None });
    proof {
        encode_utf8_decode_utf8(rest@);
        encode_utf8_decode_utf8(line@);
        lemma_segments_rejoin(bytes, bounds@, 0, 0, base);
        assert(bytes.subrange(0, end) =~= bytes);
    }
    out
}

/// Scans one line for links and cuts it at them. Where the link finder's
/// ranges are not well ordered the line stays whole, as plain text.
pub fn scan_line(line: &str, links: &mut Vec<String>) -> (out: Vec<Segment>)
    ensures
        segment_views(out@) == line_segments(line@, old(links)@.len()),
        texts(final(links)@) == texts(old(links)@) + line_links(line@),
        joined(segment_views(out@)) == line@,
{
    let found = find_links(line);
    if bounds_in_order(line, &found) {
        segment_line(line, &found, links)
    } else {
        let none: Vec<(usize, usize)> = Vec::new();
        segment_line(line, &none, links)
    }
}

/// Scans the given lines, in order, into a registry that starts empty:
/// line `i` is cut as a line that follows the links of the lines before
/// it, and the registry ends as the links of all the lines.
pub fn scan_lines(lines: &Vec<String>, links: &mut Vec<String>) -> (out: Vec<Vec<Segment>>)
    ensures
        out@.len() == lines@.len(),
        forall|i: int|
            0 <= i < lines@.len() ==> segment_views((#[trigger] out@[i])@) == line_segments(
                lines@[i]@,
                links_of_lines(texts(lines@).take(i)).len(),
            ),
        forall|i: int|
            0 <= i < lines@.len() ==> joined(segment_views((#[trigger] out@[i])@)) == lines@[i]@,
        texts(final(links)@) == links_of_lines(texts(lines@)),
{
    links.clear();
    let mut out: Vec<Vec<Segment>> = Vec::new();
    let mut i: usize = 0;
    while i < lines.len()
        invariant
            i <= lines.len(),
            out@.len() == i,
            forall|j: int|
                0 <= j < i ==> segment_views((#[trigger] out@[j])@) == line_segments(
                    lines@[j]@,
                    links_of_lines(texts(lines@).take(j)).len(),
                ),
            forall|j: int| 0 <= j < i ==> joined(segment_views((#[trigger] out@[j])@)) == lines@[j]@,
            texts(links@) == links_of_lines(texts(lines@).take(i as int)),
        decreases lines.len() - i,
    {
        proof {
            assert(texts(lines@).take(i + 1).drop_last() =~= texts(lines@).take(i as int));
        }
        let segs = scan_line(lines[i].as_str(), links);
        out.push(segs);
        i += 1;
    }
    proof {
        assert(texts(lines@).take(i as int) =~= texts(lines@));
    }
    out
}

/// Scans a message body line by line. The registry `links` is rebuilt
/// from nothing: it ends as the links of the body, in order, and each link
/// segment carries its place there, counted from 1.
pub fn scan_content(content: &str, links: &mut Vec<String>) -> (out: Vec<Vec<Segment>>)
    ensures
        out@.len() == text_lines(content@).len(),
        forall|i: int|
            0 <= i < out@.len() ==> segment_views((#[trigger] out@[i])@) == line_segments(
                text_lines(content@)[i],
                links_of_lines(text_lines(content@).take(i)).len(),
            ),
        forall|i: int|
            0 <= i < out@.len() ==> joined(segment_views((#[trigger] out@[i])@)) == text_lines(
                content@,
            )[i],
        texts(final(links)@) == links_of_lines(text_lines(content@)),
{
    let lines = lines_of(content);
    scan_lines(&lines, links)
}

} // verus!
