//! Templates: a text that a delimiter line divides into what precedes the
//! frontmatter, the frontmatter section and the body.
//!
//! A delimiter line is a line that holds three hyphens and nothing else. The
//! first one opens the section and the second closes it. A template with fewer
//! than two of them gives no entry and no body.

use vstd::prelude::*;
use crate::block::{is_block, put, EntryView, Frontmatter, ValueView};
use crate::text::{
    chars_of, find_char, first_index, lemma_first_index, string_of_range, trim_range, trimmed,
};

verus! {

/// What a delimiter line holds.
pub open spec fn dashes() -> Seq<char> {
    seq!['-', '-', '-']
}

/// The first line of `s`, without its line break.
pub open spec fn first_line(s: Seq<char>) -> Seq<char> {
    s.take(first_index(s, '\n'))
}

/// The length of the first line of `s` with its line break, where it has one.
pub open spec fn line_stride(s: Seq<char>) -> int {
    if first_index(s, '\n') < s.len() {
        first_index(s, '\n') + 1
    } else {
        s.len() as int
    }
}

/// What follows the first line of `s`.
pub open spec fn after_line(s: Seq<char>) -> Seq<char> {
    s.skip(line_stride(s))
}

/// Where the first delimiter line of `s` starts, or the length of `s` where it
/// has none.
pub open spec fn delimiter_start(s: Seq<char>) -> int
    decreases s.len(),
    via delimiter_start_decreases
{
    if s.len() == 0 || first_line(s) == dashes() {
        0
    } else {
        line_stride(s) + delimiter_start(after_line(s))
    }
}

#[via_fn]
proof fn delimiter_start_decreases(s: Seq<char>) {
    lemma_first_index(s, '\n');
}

/// `s` has a delimiter line.
pub open spec fn has_delimiter(s: Seq<char>) -> bool {
    delimiter_start(s) < s.len()
}

/// What follows the first delimiter line of `s`.
pub open spec fn after_delimiter(s: Seq<char>) -> Seq<char> {
    after_line(s.skip(delimiter_start(s)))
}

/// How far the delimiter lines of a template go.
#[derive(Clone, Copy, Debug, PartialEq, Eq, Structural)]
pub enum Shape {
    /// No delimiter line: the template has no frontmatter.
    NoFrontmatter,
    /// One delimiter line: the section it opens is never closed.
    UnterminatedFrontmatter,
    /// Two delimiter lines or more: a section and a body.
    Complete,
}

/// Where the reading of a template stands.
#[derive(Clone, Copy, Debug, PartialEq, Eq, Structural)]
pub enum Phase {
    BeforeBlock,
    InBlock,
    AfterBlock,
}

/// The phase after a line: a delimiter line opens the section, the next one
/// closes it, and nothing changes the phase after that.
pub open spec fn next_phase(phase: Phase, delimiter: bool) -> Phase {
    match phase {
        Phase::BeforeBlock => if delimiter {
            Phase::InBlock
        } else {
            Phase::BeforeBlock
        },
        Phase::InBlock => if delimiter {
            Phase::AfterBlock
        } else {
            Phase::InBlock
        },
        Phase::AfterBlock => Phase::AfterBlock,
    }
}

/// The shape of a template whose reading ended in `phase`.
pub open spec fn shape_at_end(phase: Phase) -> Shape {
    match phase {
        Phase::BeforeBlock => Shape::NoFrontmatter,
        Phase::InBlock => Shape::UnterminatedFrontmatter,
        Phase::AfterBlock => Shape::Complete,
    }
}

/// The shape of the template `text`.
pub open spec fn shape_of(text: Seq<char>) -> Shape {
    if !has_delimiter(text) {
        Shape::NoFrontmatter
    } else if !has_delimiter(after_delimiter(text)) {
        Shape::UnterminatedFrontmatter
    } else {
        Shape::Complete
    }
}

/// The frontmatter section of `text`: what stands between its first two
/// delimiter lines. Empty where it has fewer than two.
pub open spec fn section_of(text: Seq<char>) -> Seq<char> {
    if shape_of(text) == Shape::Complete {
        after_delimiter(text).take(delimiter_start(after_delimiter(text)))
    } else {
        Seq::empty()
    }
}

/// The body of `text`: all that follows its second delimiter line. Empty where
/// it has fewer than two.
pub open spec fn body_of(text: Seq<char>) -> Seq<char> {
    if shape_of(text) == Shape::Complete {
        after_delimiter(after_delimiter(text))
    } else {
        Seq::empty()
    }
}

/// The entry that a line of the section gives: the line is cut at its first
/// colon and both parts are trimmed. A line without a colon gives none, and so
/// does a line with nothing but white space before the colon.
pub open spec fn entry_of_line(line: Seq<char>) -> Option<EntryView> {
    let i = first_index(line, ':');
    if i < line.len() && trimmed(line.take(i)).len() > 0 {
        Some(
            EntryView {
                key: trimmed(line.take(i)),
                value: ValueView::Scalar(trimmed(line.skip(i + 1))),
            },
        )
    } else {
        None
    }
}

/// `b` after the entry of `line`, if it gives one, is written to it.
pub open spec fn with_line(b: Seq<EntryView>, line: Seq<char>) -> Seq<EntryView> {
    match entry_of_line(line) {
        Some(e) => put(b, e.key, e.value),
        None => b,
    }
}

/// `b` after the lines of `s` are written to it, first line first.
pub open spec fn with_lines(b: Seq<EntryView>, s: Seq<char>) -> Seq<EntryView>
    decreases s.len(),
    via with_lines_decreases
{
    if s.len() == 0 {
        b
    } else {
        with_lines(with_line(b, first_line(s)), after_line(s))
    }
}

#[via_fn]
proof fn with_lines_decreases(b: Seq<EntryView>, s: Seq<char>) {
    lemma_first_index(s, '\n');
}

/// The entries of the template `text`.
pub open spec fn frontmatter_of(text: Seq<char>) -> Seq<EntryView> {
    with_lines(Seq::empty(), section_of(text))
}

/// A template as it was read.
#[derive(Debug)]
pub struct Template {
    /// The entries of the frontmatter section.
    pub frontmatter: Frontmatter,
    /// The body, as it stands in the template.
    pub body: String,
    /// How far the delimiter lines went.
    pub shape: Shape,
}

/// Where the parts of a template lie among its characters.
pub struct Bounds {
    pub phase: Phase,
    pub section_start: usize,
    pub section_end: usize,
    pub body_start: usize,
}

/// The phase after a line.
pub fn step(phase: Phase, delimiter: bool) -> (r: Phase)
    ensures
        r == next_phase(phase, delimiter),
{
    match phase {
        Phase::BeforeBlock => if delimiter {
            Phase::InBlock
        } else {
            Phase::BeforeBlock
        },
        Phase::InBlock => if delimiter {
            Phase::AfterBlock
        } else {
            Phase::InBlock
        },
        Phase::AfterBlock => Phase::AfterBlock,
    }
}

/// The shape of a template whose reading ended in `phase`.
pub fn shape_from(phase: Phase) -> (r: Shape)
    ensures
        r == shape_at_end(phase),
{
    match phase {
        Phase::BeforeBlock => Shape::NoFrontmatter,
        Phase::InBlock => Shape::UnterminatedFrontmatter,
        Phase::AfterBlock => Shape::Complete,
    }
}

/// The end of the line that starts at `pos`, and the start of the next line.
fn line_bounds(v: &Vec<char>, pos: usize) -> (r: (usize, usize))
    requires
        pos < v.len(),
    ensures
        pos <= r.0 <= r.1 <= v.len(),
        pos < r.1,
        v@.subrange(pos as int, r.0 as int) == first_line(v@.skip(pos as int)),
        r.1 - pos == line_stride(v@.skip(pos as int)),
        v@.skip(r.1 as int) == after_line(v@.skip(pos as int)),
{
    let n = find_char(v, pos, v.len(), '\n');
    let next = if n < v.len() {
        n + 1
    } else {
        n
    };
    (n, next)
}

/// Whether `v[lo..hi]` is three hyphens.
fn is_dashes(v: &Vec<char>, lo: usize, hi: usize) -> (r: bool)
    requires
        lo <= hi <= v.len(),
    ensures
        r == (v@.subrange(lo as int, hi as int) == dashes()),
{
    let r = hi - lo == 3 && v[lo] == '-' && v[lo + 1] == '-' && v[lo + 2] == '-';
    proof {
        let s = v@.subrange(lo as int, hi as int);
        if r {
            assert(s =~= dashes());
        } else if s == dashes() {
            assert(s.len() == 3);
        }
    }
    r
}

/// Reads the lines of `v` through the three phases and gives the bounds of the
/// section and of the body.
pub fn scan(v: &Vec<char>) -> (r: Bounds)
    ensures
        shape_at_end(r.phase) == shape_of(v@),
        r.section_start <= r.section_end <= r.body_start <= v.len(),
        r.phase == Phase::AfterBlock ==> v@.subrange(
            r.section_start as int,
            r.section_end as int,
        ) == section_of(v@) && v@.skip(r.body_start as int) == body_of(v@),
{
    let len = v.len();
    let mut phase = Phase::BeforeBlock;
    let mut pos: usize = 0;
    let mut section_start: usize = 0;
    let mut section_end: usize = 0;
    let mut body_start: usize = 0;
    assert(v@.skip(0) == v@);
    while pos < len && phase != Phase::AfterBlock
        invariant
            len == v.len(),
            pos <= len,
            section_start <= section_end <= body_start <= len,
            phase == Phase::BeforeBlock ==> delimiter_start(v@) == pos + delimiter_start(
                v@.skip(pos as int),
            ),
            phase == Phase::InBlock ==> has_delimiter(v@) && after_delimiter(v@) == v@.skip(
                section_start as int,
            ) && section_start <= pos && delimiter_start(v@.skip(section_start as int)) == pos
                - section_start + delimiter_start(v@.skip(pos as int)),
            phase == Phase::AfterBlock ==> shape_of(v@) == Shape::Complete && v@.subrange(
                section_start as int,
                section_end as int,
            ) == section_of(v@) && v@.skip(body_start as int) == body_of(v@),
        decreases len - pos,
    {
        let (n, next) = line_bounds(v, pos);
        let delimiter = is_dashes(v, pos, n);
        proof {
            let s = v@.skip(pos as int);
            let rest = v@.skip(section_start as int);
            if delimiter && phase == Phase::InBlock {
                assert(rest.skip(pos - section_start) == s);
                assert(rest.take(pos - section_start) == v@.subrange(
                    section_start as int,
                    pos as int,
                ));
            }
        }
        if delimiter {
            match phase {
                Phase::BeforeBlock => {
                    section_start = next;
                    section_end = next;
                    body_start = next;
                },
                Phase::InBlock => {
                    section_end = pos;
                    body_start = next;
                },
                Phase::AfterBlock => {},
            }
        }
        phase = step(phase, delimiter);
        pos = next;
    }
    Bounds { phase, section_start, section_end, body_start }
}

/// Writes to `block` the entry that the line `v[lo..hi]` gives, if it gives one.
fn read_line(block: &mut Frontmatter, v: &Vec<char>, lo: usize, hi: usize)
    requires
        lo <= hi <= v.len(),
    ensures
        final(block)@ == with_line(old(block)@, v@.subrange(lo as int, hi as int)),
{
    let colon = find_char(v, lo, hi, ':');
    if colon < hi {
        let (ka, kb) = trim_range(v, lo, colon);
        let (va, vb) = trim_range(v, colon + 1, hi);
        proof {
            let line = v@.subrange(lo as int, hi as int);
            assert(line.take(colon - lo) == v@.subrange(lo as int, colon as int));
            assert(line.skip(colon - lo + 1) == v@.subrange(colon + 1, hi as int));
        }
        if ka < kb {
            block.set(string_of_range(v, ka, kb), string_of_range(v, va, vb));
        }
    }
}

/// The entries that the lines of `v[lo..hi]` give.
fn read_section(v: &Vec<char>, lo: usize, hi: usize) -> (block: Frontmatter)
    requires
        lo <= hi <= v.len(),
    ensures
        block@ == with_lines(Seq::empty(), v@.subrange(lo as int, hi as int)),
{
    let mut block = Frontmatter::new();
    let mut pos: usize = lo;
    while pos < hi
        invariant
            lo <= pos <= hi <= v.len(),
            with_lines(block@, v@.subrange(pos as int, hi as int)) == with_lines(
                Seq::empty(),
                v@.subrange(lo as int, hi as int),
            ),
        decreases hi - pos,
    {
        let n = find_char(v, pos, hi, '\n');
        let next = if n < hi {
            n + 1
        } else {
            n
        };
        proof {
            let s = v@.subrange(pos as int, hi as int);
            assert(first_line(s) == v@.subrange(pos as int, n as int));
            assert(after_line(s) == v@.subrange(next as int, hi as int));
        }
        read_line(&mut block, v, pos, n);
        pos = next;
    }
    block
}

/// Reads a template: its entries, its body and its shape.
pub fn parse(text: &str) -> (t: Template)
    ensures
        t.frontmatter@ == frontmatter_of(text@),
        t.body@ == body_of(text@),
        t.shape == shape_of(text@),
        is_block(t.frontmatter@),
{
    let v = chars_of(text);
    let bounds = scan(&v);
    let shape = shape_from(bounds.phase);
    let t = if shape == Shape::Complete {
        let frontmatter = read_section(&v, bounds.section_start, bounds.section_end);
        let body = string_of_range(&v, bounds.body_start, v.len());
        assert(v@.subrange(bounds.body_start as int, v.len() as int) == v@.skip(
            bounds.body_start as int,
        ));
        Template { frontmatter, body, shape }
    } else {
        Template { frontmatter: Frontmatter::new(), body: String::new(), shape }
    };
    proof {
        use_type_invariant(&t.frontmatter);
    }
    t
}

/// The entries of the frontmatter section of a template. A template with fewer
/// than two delimiter lines has none.
pub fn parse_frontmatter(template_content: &str) -> (block: Frontmatter)
    ensures
        block@ == frontmatter_of(template_content@),
        is_block(block@),
{
    parse(template_content).frontmatter
}

/// The body of a template: what follows its second delimiter line. A template
/// with fewer than two delimiter lines has none.
pub fn get_content_body(template_content: &str) -> (body: String)
    ensures
        body@ == body_of(template_content@),
{
    parse(template_content).body
}

} // verus!
