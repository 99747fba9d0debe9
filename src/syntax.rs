//! Reading a regular expression's syntax tree, as regex-syntax builds it,
//! into the library's own `Node`.

use vstd::prelude::*;
use regex_syntax::hir::{Class, ClassBytes, ClassUnicode, Hir, HirKind, Look};
use crate::synth::Node;

verus! {

/// regex-syntax's syntax tree, carried as it is.
#[verifier::external_type_specification]
#[verifier::external_body]
pub struct ExHir(Hir);

/// regex-syntax's class of bytes, carried as it is.
#[verifier::external_type_specification]
#[verifier::external_body]
pub struct ExClassBytes(ClassBytes);

/// regex-syntax's class of characters, carried as it is.
#[verifier::external_type_specification]
#[verifier::external_body]
pub struct ExClassUnicode(ClassUnicode);

/// regex-syntax's zero-width assertion, carried as it is.
#[verifier::external_type_specification]
#[verifier::external_body]
pub struct ExLook(Look);

/// The words of regex-syntax's error for a pattern it refuses (read with
/// white space ignored, Unicode on, UTF-8 not enforced); `None` for a
/// pattern it accepts.
pub uninterp spec fn syntax_error_of(pattern: Seq<char>) -> Option<Seq<char>>;

/// The pattern that regex-syntax's `Display` writes for the tree it reads
/// from `pattern` (with no comments and no white-space mode).
pub uninterp spec fn plain_of(pattern: Seq<char>) -> Seq<char>;

/// How deep a syntax tree may nest before reading it is given up; four
/// times the nesting that regex-syntax's parser allows by default.
pub const NESTING_LIMIT: u32 = 1000;

/// One level of a syntax tree, with its parts still in regex-syntax's form.
pub enum Shape<'a> {
    Empty,
    Literal(&'a [u8]),
    Bytes(&'a ClassBytes),
    Chars(&'a ClassUnicode),
    Look(Look),
    Repetition(u32, Option<u32>, &'a Hir),
    Capture(&'a Hir),
    Concat(&'a [Hir]),
    Alternation(&'a [Hir]),
}

/// Relies on regex-syntax's `ParserBuilder` and `Parser::parse`, with
/// white space in the pattern ignored, Unicode on and UTF-8 not enforced
/// (as for `regex::bytes`), and on `Hir`'s `Display` for the plain
/// writing of the tree; a refusal is handed on as its error's `Display`
/// text. All depend on the pattern alone.
#[verifier::external_body]
pub(crate) fn parse_hir(pattern: &str) -> (r: Result<(Hir, String), String>)
    ensures
        r is Ok <==> syntax_error_of(pattern@) is None,
        r matches Err(m) ==> syntax_error_of(pattern@) == Some(m@),
        r matches Ok((_, p)) ==> p@ == plain_of(pattern@),
{
    let parsed = regex_syntax::ParserBuilder::new()
        .ignore_whitespace(true)
        .unicode(true)
        .utf8(false)
        .build()
        .parse(pattern);
    match parsed {
        Ok(h) => {
            let plain = h.to_string();
            Ok((h, plain))
        },
        Err(e) => Err(e.to_string()),
    }
}

/// Relies on regex-syntax's `Hir::kind`: tells the kinds apart and hands
/// out their parts.
#[verifier::external_body]
fn shape_of(h: &Hir) -> (r: Shape<'_>) {
    match h.kind() {
        HirKind::Empty => Shape::Empty,
        HirKind::Literal(lit) => Shape::Literal(&lit.0),
        HirKind::Class(Class::Bytes(c)) => Shape::Bytes(c),
        HirKind::Class(Class::Unicode(c)) => Shape::Chars(c),
        HirKind::Look(l) => Shape::Look(*l),
        HirKind::Repetition(rep) => Shape::Repetition(rep.min, rep.max, &rep.sub),
        HirKind::Capture(cap) => Shape::Capture(&cap.sub),
        HirKind::Concat(subs) => Shape::Concat(subs),
        HirKind::Alternation(subs) => Shape::Alternation(subs),
    }
}

/// Relies on regex-syntax's `ClassBytes::iter`: the class's closed ranges.
#[verifier::external_body]
fn byte_ranges(c: &ClassBytes) -> (r: Vec<(u8, u8)>) {
    c.iter().map(|r| (r.start(), r.end())).collect()
}

/// Relies on regex-syntax's `ClassUnicode::iter`: the class's closed ranges.
#[verifier::external_body]
fn char_ranges(c: &ClassUnicode) -> (r: Vec<(char, char)>) {
    c.iter().map(|r| (r.start(), r.end())).collect()
}

/// Relies on regex-syntax's `Look::as_char`: the character that names an
/// assertion.
#[verifier::external_body]
fn look_char(l: Look) -> (r: char) {
    l.as_char()
}

fn slice_to_vec(s: &[u8]) -> (r: Vec<u8>)
    ensures
        r@ == s@,
{
    let mut r: Vec<u8> = Vec::new();
    for i in 0..s.len()
        invariant
            r@ == s@.take(i as int),
    {
        r.push(s[i]);
        assert(s@.take(i + 1) =~= s@.take(i as int).push(s@[i as int]));
    }
    assert(s@.take(s.len() as int) =~= s@);
    r
}

/// The library's tree of `h`, at most `depth` levels deep.
fn node_of(h: &Hir, depth: u32) -> (r: Option<Node>)
    decreases depth, 0nat,
{
    if depth == 0 {
        return None;
    }
    match shape_of(h) {
        Shape::Empty => Some(Node::Empty),
        Shape::Literal(b) => Some(Node::Literal(slice_to_vec(b))),
        Shape::Bytes(c) => Some(Node::Bytes(byte_ranges(c))),
        Shape::Chars(c) => Some(Node::Chars(char_ranges(c))),
        Shape::Look(l) => Some(Node::Look(look_char(l))),
        Shape::Repetition(min, max, sub) => match node_of(sub, depth - 1) {
            Some(n) => Some(Node::Repetition { min, max, sub: Box::new(n) }),
            None => None,
        },
        Shape::Capture(sub) => match node_of(sub, depth - 1) {
            Some(n) => Some(Node::Capture(Box::new(n))),
            None => None,
        },
        Shape::Concat(subs) => match nodes_of(subs, depth - 1) {
            Some(ns) => Some(Node::Concat(ns)),
            None => None,
        },
        Shape::Alternation(subs) => match nodes_of(subs, depth - 1) {
            Some(ns) => Some(Node::Alternation(ns)),
            None => None,
        },
    }
}

fn nodes_of(hs: &[Hir], depth: u32) -> (r: Option<Vec<Node>>)
    decreases depth, 1nat,
{
    let mut ns: Vec<Node> = Vec::new();
    for k in 0..hs.len() {
        match node_of(&hs[k], depth) {
            Some(n) => ns.push(n),
            None => {
                return None;
            },
        }
    }
    Some(ns)
}

/// The library's tree of regex-syntax's tree; `None` when it nests deeper
/// than `NESTING_LIMIT`.
pub fn tree_of(h: &Hir) -> Option<Node> {
    node_of(h, NESTING_LIMIT)
}

} // verus!
