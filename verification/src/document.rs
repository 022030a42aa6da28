//! The document: the text of the merged block, the body of the template, the
//! inline heading and the input, in that order.

use vstd::prelude::*;
use vstd::string::StringExecFns;
use crate::block::{strings_view, EntryView, Frontmatter};
use crate::clock::{stamp_form, take_stamp};
use crate::merge::{chosen_id, choose_id, merge, merged, text_of, Derived, DerivedView};
use crate::serialize::{serialize_frontmatter, serialized};
use crate::template::{body_of, frontmatter_of, parse};

verus! {

/// The line of an inline heading, and the empty line after it.
pub open spec fn heading_text(heading: Seq<char>) -> Seq<char> {
    seq!['#', ' '] + heading + seq!['\n', '\n']
}

/// The text that a block stands for in a document: nothing for the empty
/// block.
pub open spec fn block_text(b: Seq<EntryView>) -> Seq<char> {
    if b.len() == 0 {
        Seq::empty()
    } else {
        serialized(b)
    }
}

/// The text of a part that may be absent.
pub open spec fn or_empty(part: Option<Seq<char>>) -> Seq<char> {
    match part {
        Some(t) => t,
        None => Seq::empty(),
    }
}

/// The heading line of a heading that may be absent.
pub open spec fn heading_part(heading: Option<Seq<char>>) -> Seq<char> {
    match heading {
        Some(h) => heading_text(h),
        None => Seq::empty(),
    }
}

/// The parts of a document in their order: frontmatter, body, heading, input.
pub open spec fn composed(
    body: Option<Seq<char>>,
    heading: Option<Seq<char>>,
    input: Seq<char>,
    frontmatter: Seq<char>,
) -> Seq<char> {
    frontmatter + or_empty(body) + heading_part(heading) + input
}

/// A request as mathematics.
pub struct RequestView {
    pub template: Option<Seq<char>>,
    pub pairs: Seq<Seq<char>>,
    pub title: Option<Seq<char>>,
    pub id: Option<Seq<char>>,
    pub id_unix: bool,
    pub tags: Seq<Seq<char>>,
    pub heading: Option<Seq<char>>,
    pub input: Seq<char>,
}

/// The entries that the template of a request gives: none without a template.
pub open spec fn template_block(template: Option<Seq<char>>) -> Seq<EntryView> {
    match template {
        Some(t) => frontmatter_of(t),
        None => Seq::empty(),
    }
}

/// The body that the template of a request gives.
pub open spec fn template_body(template: Option<Seq<char>>) -> Option<Seq<char>> {
    match template {
        Some(t) => Some(body_of(t)),
        None => None,
    }
}

/// The derived fields of a request. The identifier taken from the clock counts
/// only where the request asks for it, and then it comes before the explicit
/// one.
pub open spec fn derived_of(r: RequestView, stamp: Option<Seq<char>>) -> DerivedView {
    DerivedView {
        title: r.title,
        id: chosen_id(
            r.id,
            if r.id_unix {
                stamp
            } else {
                None
            },
        ),
        tags: r.tags,
    }
}

/// The block of the document of a request.
pub open spec fn block_of(r: RequestView, stamp: Option<Seq<char>>) -> Seq<EntryView> {
    merged(template_block(r.template), r.pairs, derived_of(r, stamp))
}

/// The document of a request, where `stamp` is the identifier taken from the
/// clock, if one was taken.
pub open spec fn document(r: RequestView, stamp: Option<Seq<char>>) -> Seq<char> {
    composed(template_body(r.template), r.heading, r.input, block_text(block_of(r, stamp)))
}

/// What a document is made from.
#[derive(Debug)]
pub struct Request {
    /// The text of the template, where there is one.
    pub template: Option<String>,
    /// The explicit `key=value` pairs.
    pub pairs: Vec<String>,
    /// The title.
    pub title: Option<String>,
    /// The explicit identifier.
    pub id: Option<String>,
    /// Whether the identifier is the moment of the call.
    pub id_unix: bool,
    /// The tags, in their order.
    pub tags: Vec<String>,
    /// The text of the inline heading.
    pub heading: Option<String>,
    /// The input, which ends the document.
    pub input: String,
}

impl View for Request {
    type V = RequestView;

    open spec fn view(&self) -> RequestView {
        RequestView {
            template: text_of(self.template),
            pairs: strings_view(self.pairs@),
            title: text_of(self.title),
            id: text_of(self.id),
            id_unix: self.id_unix,
            tags: strings_view(self.tags@),
            heading: text_of(self.heading),
            input: self.input@,
        }
    }
}

/// The text that a block stands for in a document: nothing for the empty
/// block, else its serialized text.
pub fn render_block(block: &Frontmatter) -> (out: String)
    ensures
        out@ == block_text(block@),
{
    if block.is_empty() {
        String::new()
    } else {
        serialize_frontmatter(block)
    }
}

/// Joins the parts of a document: the serialized frontmatter, the body of the
/// template, the heading line with an empty line after it, and the input.
pub fn compose(
    template_body: &Option<String>,
    inline_heading: &Option<String>,
    stdin_content: &str,
    serialized_frontmatter: &str,
) -> (out: String)
    ensures
        out@ == composed(
            text_of(*template_body),
            text_of(*inline_heading),
            stdin_content@,
            serialized_frontmatter@,
        ),
{
    let mut out = String::new();
    out.append(serialized_frontmatter);
    match template_body {
        Some(body) => {
            out.append(body.as_str());
        },
        None => {},
    }
    match inline_heading {
        Some(heading) => {
            out.push('#');
            out.push(' ');
            out.append(heading.as_str());
            out.push('\n');
            out.push('\n');
        },
        None => {},
    }
    out.append(stdin_content);
    assert(out@ =~= composed(
        text_of(*template_body),
        text_of(*inline_heading),
        stdin_content@,
        serialized_frontmatter@,
    ));
    out
}

/// A copy of a string that may be absent.
fn copy_text(s: &Option<String>) -> (r: Option<String>)
    ensures
        text_of(r) == text_of(*s),
{
    match s {
        Some(t) => Some(t.clone()),
        None => None,
    }
}

/// The document of a request, where `stamp` is the identifier taken from the
/// clock. A request that asks for the moment of the call needs one.
pub fn assemble_with(request: &Request, stamp: Option<String>) -> (out: String)
    requires
        request.id_unix ==> stamp.is_some(),
    ensures
        out@ == document(request@, text_of(stamp)),
{
    let (template, body) = match &request.template {
        Some(text) => {
            let t = parse(text.as_str());
            (t.frontmatter, Some(t.body))
        },
        None => (Frontmatter::new(), None),
    };
    let counted = if request.id_unix {
        stamp
    } else {
        None
    };
    let derived = Derived {
        title: copy_text(&request.title),
        id: choose_id(copy_text(&request.id), counted),
        tags: crate::block::copy_strings(&request.tags),
    };
    let block = merge(template, &request.pairs, &derived);
    let frontmatter = render_block(&block);
    compose(&body, &request.heading, request.input.as_str(), frontmatter.as_str())
}

/// The document of a request. Where the request asks for the moment of the call
/// as identifier, the clock is read once, and there is no document where the
/// clock stands outside the years that can be written.
pub fn assemble(request: &Request) -> (out: Option<String>)
    ensures
        !request.id_unix ==> text_of(out) == Some(document(request@, None)),
        request.id_unix ==> match out {
            Some(text) => exists|stamp: Seq<char>|
                stamp_form(stamp) && text@ == document(request@, Some(stamp)),
            None => true,
        },
{
    let stamp = take_stamp(request.id_unix);
    if request.id_unix && stamp.is_none() {
        None
    } else {
        let ghost taken = text_of(stamp);
        let text = assemble_with(request, stamp);
        proof {
            if request.id_unix {
                assert(stamp_form(taken.unwrap()) && text@ == document(
                    request@,
                    Some(taken.unwrap()),
                ));
            }
        }
        Some(text)
    }
}

} // verus!
