//! Rules: literal text, integer ranges and regular expressions, each able
//! to check an observed line and to produce a line for the program.

use vstd::prelude::*;
use vstd::string::*;
use vstd::utf8::{decode_utf8, encode_utf8, valid_utf8, encode_utf8_valid_utf8, encode_utf8_decode_utf8};
use crate::decimal::{decimal_value, decimal_text, int_error_text, parse_i64, i64_text, lemma_decimal_round_trip};
use crate::text::{chars_of, dots_in, find_dots, line_spans, lines, spans_text, spans_within, split, split_spans, trim, trim_span};
use crate::worker_thread::OpReport;
use crate::synth::{Item, Node, generate_regex_item, has_any_look, has_look, lowers_to, yields};
use crate::syntax::{parse_hir, plain_of, syntax_error_of, tree_of};
use crate::chance::{choose_weighted_range, random_in};
use regex::bytes::{Regex, RegexBuilder};

verus! {

/// Why a rule's text was refused.
#[derive(Debug)]
pub enum RuleError {
    /// The integer-range text holds no range at all.
    EmptyRanges,
    /// A token that is not an integer: the line it stands on, the position
    /// (in characters) where it starts, and the integer parser's words.
    BadNumber { line: String, offset: usize, reason: String },
    /// A range whose start lies above its end.
    InvertedRange { start: i64, end: i64 },
    /// The regular expression does not parse or compile, in regex-syntax's
    /// or the regex crate's words.
    Regex { message: String },
    /// The regular expression's syntax tree could not be read.
    RegexTree { message: String },
}

/// Why a rule could not produce a line.
#[derive(Debug)]
pub enum GenerateError {
    /// The pattern holds a zero-width assertion (named by the character),
    /// which generation cannot honour.
    UnsupportedLook(char),
}

/// Relies on `char`'s `Display` (through `to_string`): the character alone.
#[verifier::external_body]
fn char_text(c: char) -> (r: String)
    ensures
        r@ == seq![c],
{
    c.to_string()
}

impl GenerateError {
    /// A sentence for the person who wrote the rule.
    pub fn message(&self) -> (r: String)
        ensures
            self matches GenerateError::UnsupportedLook(c) ==> r@
                == "This element is not supported in generation: "@ + seq![*c],
    {
        match self {
            GenerateError::UnsupportedLook(c) => {
                let mut m = "This element is not supported in generation: ".to_owned();
                m.append(char_text(*c).as_str());
                m
            },
        }
    }
}

/// `n` spaces.
pub open spec fn spaces(n: nat) -> Seq<char> {
    Seq::new(n, |i: int| ' ')
}

/// The sentence for a token that is no integer: the parser's words, the
/// line, and a caret under the token's first character.
pub open spec fn bad_number_text(line: Seq<char>, offset: nat, reason: Seq<char>) -> Seq<char> {
    "Integer ranges: "@ + reason + "\n"@ + line + "\n"@ + spaces(offset) + "^"@
}

impl RuleError {
    /// A sentence for the person who wrote the rule; for a bad number, the
    /// line follows with a caret under the token.
    pub fn message(&self) -> (r: String)
        ensures
            self matches RuleError::BadNumber { line, offset, reason } ==> r@ == bad_number_text(
                line@,
                offset as nat,
                reason@,
            ),
            self is EmptyRanges ==> r@ == "Integer ranges: the text field is empty"@,
            self matches RuleError::Regex { message } ==> r@ == message@,
            self matches RuleError::RegexTree { message } ==> r@ == message@,
            self matches RuleError::InvertedRange { start, end } ==> r@
                == "Integer ranges: the start of a range lies above its end ("@ + decimal_text(
                start as int,
            ) + ".."@ + decimal_text(end as int) + ")"@,
    {
        match self {
            RuleError::EmptyRanges => "Integer ranges: the text field is empty".to_owned(),
            RuleError::BadNumber { line, offset, reason } => {
                let mut m = "Integer ranges: ".to_owned();
                m.append(reason.as_str());
                m.append("\n");
                m.append(line.as_str());
                m.append("\n");
                let ghost head = m@;
                let mut i: usize = 0;
                while i < *offset
                    invariant
                        i <= *offset,
                        m@ == head + spaces(i as nat),
                    decreases *offset - i,
                {
                    m.append(" ");
                    proof {
                        reveal_strlit(" ");
                        assert(spaces((i + 1) as nat) =~= spaces(i as nat) + " "@);
                    }
                    i = i + 1;
                }
                m.append("^");
                m
            },
            RuleError::InvertedRange { start, end } => {
                let mut m = "Integer ranges: the start of a range lies above its end (".to_owned();
                m.append(i64_text(*start).as_str());
                m.append("..");
                m.append(i64_text(*end).as_str());
                m.append(")");
                m
            },
            RuleError::Regex { message } => message.clone(),
            RuleError::RegexTree { message } => message.clone(),
        }
    }
}

/// A compiled matcher of the regex crate, carried as it is.
#[verifier::external_type_specification]
#[verifier::external_body]
pub struct ExRegex(Regex);

/// The words of the regex crate's error for a pattern that `regex::bytes`
/// (Unicode on) does not compile; `None` for a pattern it compiles.
pub uninterp spec fn compile_error_of(pattern: Seq<char>) -> Option<Seq<char>>;

/// Does the pattern, read with white space ignored, match the whole of
/// the line?
pub uninterp spec fn regex_whole_match(pattern: Seq<char>, line: Seq<u8>) -> bool;

/// Relies on regex's `RegexBuilder::build` for `regex::bytes` with Unicode
/// on; a refusal is handed on as its error's `Display` text. Both depend on
/// the pattern alone.
#[verifier::external_body]
fn compile_matcher(pattern: &str) -> (r: Result<Regex, String>)
    ensures
        r is Ok <==> compile_error_of(pattern@) is None,
        r matches Err(m) ==> compile_error_of(pattern@) == Some(m@),
{
    RegexBuilder::new(pattern).unicode(true).build().map_err(|e| e.to_string())
}

/// Relies on `regex::bytes::Regex::is_match` on the matcher that
/// `RegExpr::parse` compiled for the pattern: regex-syntax's plain writing
/// of it, anchored at both ends. The answer depends on the pattern and the
/// line alone.
#[verifier::external_body]
fn regex_matches(x: &RegExpr, line: &Vec<u8>) -> (r: bool)
    ensures
        r == regex_whole_match(x.source(), line@),
{
    x.regex.is_match(line.as_slice())
}

/// A pattern that matches a whole line exactly when `p` does.
pub open spec fn whole_line_pattern(p: Seq<char>) -> Seq<char> {
    "\\A(?:"@ + p + ")\\z"@
}

/// What the regular-expression rule writes after a failed check.
pub open spec fn regex_failure_text(pattern: Seq<char>) -> Seq<char> {
    "Expected the output to match the regular expression\n"@ + pattern
}

/// `v` is a rule read from the pattern `text`, which regex-syntax accepts.
pub open spec fn regex_read(text: Seq<char>, v: RegExpr) -> bool {
    v.source() == text && syntax_error_of(text) is None
}

/// `e` is why the pattern `text` is refused: regex-syntax's words on it,
/// or the regex crate's words on the whole-line form of regex-syntax's
/// plain writing of it; or, with both accepted, a syntax tree nested
/// deeper than the library reads.
pub open spec fn regex_refused(text: Seq<char>, e: RuleError) -> bool {
    match e {
        RuleError::Regex { message } => syntax_error_of(text) == Some(message@) || (
        syntax_error_of(text) is None && compile_error_of(whole_line_pattern(plain_of(text)))
            == Some(message@)),
        RuleError::RegexTree { .. } => syntax_error_of(text) is None && compile_error_of(
            whole_line_pattern(plain_of(text)),
        ) is None,
        _ => false,
    }
}

/// A rule that accepts a line that the whole of a regular expression
/// matches, and writes random lines from its syntax tree.
#[derive(Debug)]
pub struct RegExpr {
    regex: Regex,
    syntax: Node,
    pattern: String,
}

impl RegExpr {
    /// The syntax tree of the pattern.
    pub closed spec fn tree(&self) -> Node {
        self.syntax
    }

    /// The pattern as written.
    pub closed spec fn source(&self) -> Seq<char> {
        self.pattern@
    }

    /// The pattern as written.
    pub fn text(&self) -> (r: &String)
        ensures
            r@ == self.source(),
    {
        &self.pattern
    }

    fn failure_msg(&self) -> (r: String)
        ensures
            r@ == regex_failure_text(self.source()),
    {
        let mut m = "Expected the output to match the regular expression\n".to_owned();
        m.append(self.pattern.as_str());
        m
    }

    /// Reads a pattern, with white space in it ignored: its syntax tree,
    /// and a matcher for the whole of a line. regex-syntax's and the regex
    /// crate's refusals are handed on in their own words.
    pub fn parse(text: &str) -> (r: Result<RegExpr, RuleError>)
        ensures
            match r {
                Ok(v) => regex_read(text@, v),
                Err(e) => regex_refused(text@, e),
            },
            syntax_error_of(text@) matches Some(m) ==> (r matches Err(RuleError::Regex { message })
                && message@ == m),
            syntax_error_of(text@) is None ==> (compile_error_of(whole_line_pattern(plain_of(text@)))
                matches Some(m) ==> (r matches Err(RuleError::Regex { message }) && message@ == m)),
    {
        let (hir, plain) = match parse_hir(text) {
            Ok(parts) => parts,
            Err(e) => {
                return Err(RuleError::Regex { message: e });
            },
        };
        // regex-syntax writes the expression without comments or white-space
        // mode, so a group around it holds all of it whatever its flags.
        let mut whole = "\\A(?:".to_owned();
        whole.append(plain.as_str());
        whole.append(")\\z");
        let regex = match compile_matcher(whole.as_str()) {
            Ok(regex) => regex,
            Err(e) => {
                return Err(RuleError::Regex { message: e });
            },
        };
        match tree_of(&hir) {
            Some(syntax) => Ok(RegExpr { regex, syntax, pattern: text.to_owned() }),
            None => Err(
                RuleError::RegexTree { message: "The pattern nests too deeply".to_owned() },
            ),
        }
    }

    /// Success exactly when the pattern matches the whole observed line.
    pub fn validate(&self, observed: &Vec<u8>) -> (r: OpReport)
        ensures
            r is Success <==> regex_whole_match(self.source(), observed@),
            r matches OpReport::Failure { error_message } ==> error_message@ == regex_failure_text(
                self.source(),
            ),
    {
        self.verdict(regex_matches(self, observed))
    }

    /// The verdict once the matcher has said whether the line matched.
    pub fn verdict(&self, matched: bool) -> (r: OpReport)
        ensures
            r is Success <==> matched,
            r matches OpReport::Failure { error_message } ==> error_message@ == regex_failure_text(
                self.source(),
            ),
    {
        if matched {
            OpReport::Success
        } else {
            OpReport::Failure { error_message: self.failure_msg() }
        }
    }

    /// A random line from the pattern's syntax tree; refused when the
    /// pattern holds a zero-width assertion.
    pub fn generate(&self) -> (r: Result<Vec<u8>, GenerateError>)
        ensures
            r is Err <==> has_any_look(self.tree()),
            r matches Err(GenerateError::UnsupportedLook(c)) ==> has_look(self.tree(), c),
            r matches Ok(out) ==> exists|it: Item| lowers_to(self.tree(), it) && yields(it, out@),
    {
        match generate_regex_item(&self.syntax) {
            Ok(item) => {
                let mut out: Vec<u8> = Vec::new();
                item.append_to(&mut out);
                assert(out@ =~= Seq::<u8>::empty() + out@);
                Ok(out)
            },
            Err(c) => Err(GenerateError::UnsupportedLook(c)),
        }
    }
}

/// A rule of any kind.
#[derive(Debug)]
pub enum Rule {
    PlainText(PlainText),
    RegExpr(RegExpr),
    IntRanges(IntRanges),
}

impl Rule {
    /// Could `generate` have written `out`?
    pub open spec fn can_write(&self, out: Seq<u8>) -> bool {
        match self {
            Rule::PlainText(p) => out == encode_utf8(p.literal()),
            Rule::IntRanges(v) => v.can_produce(out),
            Rule::RegExpr(x) => exists|it: Item| lowers_to(x.tree(), it) && yields(it, out),
        }
    }

    /// Does the rule accept the observed line?
    pub open spec fn passes(&self, observed: Seq<u8>) -> bool {
        match self {
            Rule::PlainText(p) => observed == encode_utf8(p.literal()),
            Rule::IntRanges(v) => v.accepts(observed),
            Rule::RegExpr(x) => regex_whole_match(x.source(), observed),
        }
    }

    /// What the rule writes when the observed line fails its check.
    pub open spec fn failure_text(&self, observed: Seq<u8>) -> Seq<char> {
        match self {
            Rule::PlainText(p) => text_failure_text(p.literal()),
            Rule::IntRanges(v) => int_failure_text(v.source(), observed_text(observed)),
            Rule::RegExpr(x) => regex_failure_text(x.source()),
        }
    }

    /// The verdict of the rule on an observed line.
    pub fn validate(&self, observed: &Vec<u8>) -> (r: OpReport)
        ensures
            r is Success <==> self.passes(observed@),
            r matches OpReport::Failure { error_message } ==> error_message@ == self.failure_text(
                observed@,
            ),
    {
        match self {
            Rule::PlainText(p) => p.validate(observed),
            Rule::RegExpr(x) => x.validate(observed),
            Rule::IntRanges(v) => v.validate(observed),
        }
    }

    /// A line for the program that the rule allows.
    pub fn generate(&self) -> (r: Result<Vec<u8>, GenerateError>)
        ensures
            r matches Ok(out) ==> self.can_write(out@),
            self matches Rule::PlainText(p) ==> r matches Ok(out) && out@ == encode_utf8(
                p.literal(),
            ),
            self matches Rule::IntRanges(v) ==> r matches Ok(out) && v.can_produce(out@),
            self matches Rule::RegExpr(x) ==> {
                &&& r is Err <==> has_any_look(x.tree())
                &&& r matches Ok(out) ==> exists|it: Item| lowers_to(x.tree(), it) && yields(it, out@)
            },
    {
        match self {
            Rule::PlainText(p) => Ok(p.generate()),
            Rule::RegExpr(x) => x.generate(),
            Rule::IntRanges(v) => Ok(v.generate()),
        }
    }
}

/// What bytes that are not UTF-8 read as once each bad sequence is
/// replaced by U+FFFD.
pub uninterp spec fn lossy_text(b: Seq<u8>) -> Seq<char>;

/// The text an observed line reads as.
pub open spec fn observed_text(b: Seq<u8>) -> Seq<char> {
    if valid_utf8(b) {
        decode_utf8(b)
    } else {
        lossy_text(b)
    }
}

/// Relies on bstr's `ByteSlice::to_str_lossy`, which decodes valid UTF-8
/// as it is and depends on the bytes alone.
#[verifier::external_body]
pub(crate) fn read_lossy(b: &Vec<u8>) -> (r: String)
    ensures
        r@ == (if valid_utf8(b@) {
            decode_utf8(b@)
        } else {
            lossy_text(b@)
        }),
{
    bstr::ByteSlice::to_str_lossy(b.as_slice()).into_owned()
}

/// What `str::escape_debug` makes of a text.
pub uninterp spec fn debug_escaped(s: Seq<char>) -> Seq<char>;

/// Relies on `str::escape_debug`, whose result depends on the text alone.
#[verifier::external_body]
fn escape_debug(s: &str) -> (r: String)
    ensures
        r@ == debug_escaped(s@),
{
    s.escape_debug().to_string()
}

/// Are the two byte strings the same?
pub fn bytes_equal(a: &[u8], b: &[u8]) -> (r: bool)
    ensures
        r == (a@ == b@),
{
    if a.len() != b.len() {
        return false;
    }
    let mut i: usize = 0;
    while i < a.len()
        invariant
            a.len() == b.len(),
            0 <= i <= a.len(),
            a@.take(i as int) == b@.take(i as int),
        decreases a.len() - i,
    {
        if a[i] != b[i] {
            return false;
        }
        assert(a@.take(i + 1) =~= a@.take(i as int).push(a@[i as int]));
        assert(b@.take(i + 1) =~= b@.take(i as int).push(b@[i as int]));
        i = i + 1;
    }
    assert(a@ =~= a@.take(i as int));
    assert(b@ =~= b@.take(i as int));
    true
}

/// The same text with what the UTF-8 encoding of a `String` is.
fn utf8_bytes(s: &String) -> (r: Vec<u8>)
    ensures
        r@ == encode_utf8(s@),
{
    s.as_str().as_bytes_vec()
}

/// `s` without the line terminators (`\n` or `\r\n`) at its end; a `\r`
/// that no `\n` follows stays.
pub open spec fn strip_terminators(s: Seq<char>) -> Seq<char>
    decreases s.len(),
{
    if s.len() > 0 && s.last() == '\n' {
        let t = s.drop_last();
        if t.len() > 0 && t.last() == '\r' {
            strip_terminators(t.drop_last())
        } else {
            strip_terminators(t)
        }
    } else {
        s
    }
}

/// What the integer-range rule writes after a failed check.
pub open spec fn range_failure_text(src: Seq<char>) -> Seq<char> {
    "Expected an integer within the ranges:\n"@ + src
}

/// What the integer-range rule writes for a line that is no integer.
pub open spec fn not_integer_text(line: Seq<char>) -> Seq<char> {
    "Expected an integer (it does not convert: "@ + int_error_text(line) + ")"@
}

/// What the integer-range rule with text `src` writes after a failed
/// check of `line`.
pub open spec fn int_failure_text(src: Seq<char>, line: Seq<char>) -> Seq<char> {
    match decimal_value(line) {
        Some(_) => range_failure_text(src),
        None => not_integer_text(line),
    }
}

/// What the literal rule writes after a failed check.
pub open spec fn text_failure_text(expected: Seq<char>) -> Seq<char> {
    "Expected output: \""@ + debug_escaped(expected) + "\""@
}

/// Every line an integer-range rule writes passes that rule's own check.
pub proof fn lemma_generated_integers_pass(rule: &IntRanges, out: Seq<u8>)
    requires
        rule.can_produce(out),
    ensures
        rule.accepts(out),
{
    let v = choose|v: int| rule.holds(v) && out == encode_utf8(decimal_text(v));
    lemma_decimal_round_trip(v as i64);
    encode_utf8_valid_utf8(decimal_text(v));
    encode_utf8_decode_utf8(decimal_text(v));
}

/// A rule that matches and produces one literal line.
#[derive(Debug)]
pub struct PlainText {
    text: String,
}

impl PlainText {
    /// The literal text of the rule.
    pub closed spec fn literal(&self) -> Seq<char> {
        self.text@
    }

    /// The literal text of the rule.
    pub fn text(&self) -> (r: &String)
        ensures
            r@ == self.literal(),
    {
        &self.text
    }

    fn failure_msg(&self) -> (r: String)
        ensures
            r@ == text_failure_text(self.literal()),
    {
        let mut m = "Expected output: \"".to_owned();
        m.append(escape_debug(self.text.as_str()).as_str());
        m.append("\"");
        m
    }

    /// The rule for `text`, without the line terminators at its end.
    pub fn parse(text: &str) -> (r: PlainText)
        ensures
            r.literal() == strip_terminators(text@),
    {
        let cs = chars_of(text);
        let mut k = cs.len();
        assert(cs@.take(k as int) =~= cs@);
        while k > 0 && cs[k - 1] == '\n'
            invariant
                k <= cs.len(),
                cs@ == text@,
                strip_terminators(text@) == strip_terminators(cs@.take(k as int)),
            decreases k,
        {
            assert(cs@.take(k as int).drop_last() =~= cs@.take(k - 1));
            k = k - 1;
            if k > 0 && cs[k - 1] == '\r' {
                assert(cs@.take(k as int).drop_last() =~= cs@.take(k - 1));
                k = k - 1;
            }
        }
        PlainText { text: text.substring_char(0, k).to_owned() }
    }

    /// The literal's bytes.
    pub fn generate(&self) -> (r: Vec<u8>)
        ensures
            r@ == encode_utf8(self.literal()),
    {
        utf8_bytes(&self.text)
    }

    /// Success exactly when the observed bytes are the literal's bytes.
    pub fn validate(&self, observed: &Vec<u8>) -> (r: OpReport)
        ensures
            r is Success <==> observed@ == encode_utf8(self.literal()),
            r matches OpReport::Failure { error_message } ==> error_message@ == text_failure_text(
                self.literal(),
            ),
    {
        let expected = utf8_bytes(&self.text);
        if bytes_equal(expected.as_slice(), observed.as_slice()) {
            OpReport::Success
        } else {
            OpReport::Failure { error_message: self.failure_msg() }
        }
    }
}

/// What went wrong with one comma-separated piece of integer-range text.
#[derive(Debug, Clone, Copy, PartialEq, Eq, Structural)]
pub enum RangeFault {
    Malformed,
    Inverted(i64, i64),
}

/// The range one trimmed piece denotes: `A..B` or a single integer `A`.
pub open spec fn piece_meaning(e: Seq<char>) -> Result<(int, int), RangeFault> {
    match find_dots(e, 0) {
        Some(d) => match (decimal_value(trim(e.take(d))), decimal_value(trim(e.skip(d + 2)))) {
            (Some(a), Some(b)) => if a > b {
                Err(RangeFault::Inverted(a as i64, b as i64))
            } else {
                Ok((a, b))
            },
            _ => Err(RangeFault::Malformed),
        },
        None => match decimal_value(e) {
            Some(a) => Ok((a, a)),
            None => Err(RangeFault::Malformed),
        },
    }
}

/// The ranges of a sequence of pieces, or the first fault among them.
pub open spec fn pieces_meaning(ps: Seq<Seq<char>>) -> Result<Seq<(int, int)>, RangeFault>
    decreases ps.len(),
{
    if ps.len() == 0 {
        Ok(Seq::empty())
    } else {
        match piece_meaning(ps[0]) {
            Ok(r) => match pieces_meaning(ps.drop_first()) {
                Ok(rs) => Ok(seq![r] + rs),
                Err(f) => Err(f),
            },
            Err(f) => Err(f),
        }
    }
}

/// The trimmed comma-separated pieces of one line.
pub open spec fn line_pieces(line: Seq<char>) -> Seq<Seq<char>> {
    split(line, ',').map_values(|p: Seq<char>| trim(p))
}

/// The ranges of a sequence of lines, or the first fault with its line.
pub open spec fn lines_meaning(ls: Seq<Seq<char>>) -> Result<
    Seq<(int, int)>,
    (Seq<char>, RangeFault),
>
    decreases ls.len(),
{
    if ls.len() == 0 {
        Ok(Seq::empty())
    } else {
        match pieces_meaning(line_pieces(ls[0])) {
            Ok(rs) => match lines_meaning(ls.drop_first()) {
                Ok(more) => Ok(rs + more),
                Err(e) => Err(e),
            },
            Err(f) => Err((ls[0], f)),
        }
    }
}

/// The ranges that integer-range text denotes, in order, or the first
/// fault in it with the line it stands on.
pub open spec fn ranges_meaning(text: Seq<char>) -> Result<Seq<(int, int)>, (Seq<char>, RangeFault)> {
    lines_meaning(lines(text))
}

pub open spec fn int_pairs(v: Seq<(i64, i64)>) -> Seq<(int, int)> {
    v.map_values(|p: (i64, i64)| (p.0 as int, p.1 as int))
}

/// `acc` followed by what `rest` holds, or the fault of `rest`.
pub open spec fn after<E>(acc: Seq<(int, int)>, rest: Result<Seq<(int, int)>, E>) -> Result<
    Seq<(int, int)>,
    E,
> {
    match rest {
        Ok(more) => Ok(acc + more),
        Err(e) => Err(e),
    }
}

proof fn lemma_after_empty<E>(x: Result<Seq<(int, int)>, E>)
    ensures
        after(Seq::empty(), x) == x,
{
    if let Ok(m) = x {
        assert(Seq::<(int, int)>::empty() + m =~= m);
    }
}

proof fn lemma_after_after<E>(a: Seq<(int, int)>, b: Seq<(int, int)>, x: Result<Seq<(int, int)>, E>)
    ensures
        after(a, after(b, x)) == after(a + b, x),
{
    if let Ok(m) = x {
        assert(a + (b + m) =~= (a + b) + m);
    }
}

/// A fault in one piece is the fault of the whole text.
proof fn lemma_fault_spreads(
    all: Seq<Seq<char>>,
    li: int,
    acc: Seq<(int, int)>,
    inner: Seq<(int, int)>,
    pi: int,
    f: RangeFault,
)
    requires
        0 <= li < all.len(),
        lines_meaning(all) == after(acc, lines_meaning(all.skip(li))),
        pieces_meaning(line_pieces(all[li])) == after(
            inner,
            pieces_meaning(line_pieces(all[li]).skip(pi)),
        ),
        0 <= pi < line_pieces(all[li]).len(),
        piece_meaning(line_pieces(all[li])[pi]) == Err::<(int, int), _>(f),
    ensures
        lines_meaning(all) == Err::<Seq<(int, int)>, _>((all[li], f)),
{
    let ps = line_pieces(all[li]);
    assert(ps.skip(pi)[0] == ps[pi]);
    assert(pieces_meaning(ps.skip(pi)) == Err::<Seq<(int, int)>, _>(f));
    assert(all.skip(li)[0] == all[li]);
}

/// A good piece adds its range to what came before it.
proof fn lemma_piece_adds(ps: Seq<Seq<char>>, inner: Seq<(int, int)>, pi: int, r: (int, int))
    requires
        pieces_meaning(ps) == after(inner, pieces_meaning(ps.skip(pi))),
        0 <= pi < ps.len(),
        piece_meaning(ps[pi]) == Ok::<_, RangeFault>(r),
    ensures
        pieces_meaning(ps) == after(inner.push(r), pieces_meaning(ps.skip(pi + 1))),
{
    assert(ps.skip(pi)[0] == ps[pi]);
    assert(ps.skip(pi).drop_first() =~= ps.skip(pi + 1));
    assert(pieces_meaning(ps.skip(pi)) == after(seq![r], pieces_meaning(ps.skip(pi + 1))));
    lemma_after_after(inner, seq![r], pieces_meaning(ps.skip(pi + 1)));
    assert(inner + seq![r] =~= inner.push(r));
}

/// `v` is the rule that integer-range text `text` denotes.
pub open spec fn int_ranges_read(text: Seq<char>, v: IntRanges) -> bool {
    &&& ranges_meaning(text) == Ok::<_, (Seq<char>, RangeFault)>(v.range_seq())
    &&& v.range_seq().len() > 0
    &&& v.source() == text
}

/// `e` is why integer-range text `text` is refused: no range, the first
/// fault a malformed token (its line, where it starts and the integer
/// parser's words on it), or the first fault an inverted range.
pub open spec fn int_ranges_refused(text: Seq<char>, e: RuleError) -> bool {
    match e {
        RuleError::EmptyRanges => ranges_meaning(text) == Ok::<_, (Seq<char>, RangeFault)>(
            Seq::<(int, int)>::empty(),
        ),
        RuleError::BadNumber { line, offset, reason } => {
            &&& ranges_meaning(text) == Err::<Seq<(int, int)>, _>((line@, RangeFault::Malformed))
            &&& offset <= line@.len()
            &&& exists|e: int|
                offset <= e <= line@.len() && #[trigger] decimal_value(
                    line@.subrange(offset as int, e),
                ) is None && reason@ == int_error_text(line@.subrange(offset as int, e))
        },
        RuleError::InvertedRange { start, end } => {
            &&& ranges_meaning(text) is Err
            &&& ranges_meaning(text)->Err_0.1 == RangeFault::Inverted(start, end)
        },
        _ => false,
    }
}

/// A rule that accepts a line when it is an integer inside one of a
/// list of closed ranges.
#[derive(Debug)]
pub struct IntRanges {
    ranges: Vec<(i64, i64)>,
    orig_text: String,
}

impl IntRanges {
    #[verifier::type_invariant]
    spec fn inv(&self) -> bool {
        &&& self.ranges.len() > 0
        &&& forall|i: int| 0 <= i < self.ranges.len() ==> (#[trigger] self.ranges[i]).0 <= self.ranges[i].1
    }

    /// The ranges, in the order of the text.
    pub closed spec fn range_seq(&self) -> Seq<(int, int)> {
        int_pairs(self.ranges@)
    }

    /// The text the rule was read from.
    pub closed spec fn source(&self) -> Seq<char> {
        self.orig_text@
    }

    /// The ranges, in the order of the text.
    pub fn ranges(&self) -> (r: &Vec<(i64, i64)>)
        ensures
            int_pairs(r@) == self.range_seq(),
    {
        &self.ranges
    }

    /// The text the rule was read from.
    pub fn text(&self) -> (r: &String)
        ensures
            r@ == self.source(),
    {
        &self.orig_text
    }

    /// Does one of the ranges hold `v`?
    pub open spec fn holds(&self, v: int) -> bool {
        exists|i: int|
            0 <= i < self.range_seq().len() && (#[trigger] self.range_seq()[i]).0 <= v
                <= self.range_seq()[i].1
    }

    /// Does the rule accept the observed bytes?
    pub open spec fn accepts(&self, observed: Seq<u8>) -> bool {
        match decimal_value(observed_text(observed)) {
            Some(v) => self.holds(v),
            None => false,
        }
    }

    /// Could `generate` have written these bytes?
    pub open spec fn can_produce(&self, out: Seq<u8>) -> bool {
        exists|v: int| self.holds(v) && out == encode_utf8(decimal_text(v))
    }

    fn failure_msg(&self) -> (r: String)
        ensures
            r@ == range_failure_text(self.source()),
    {
        let mut m = "Expected an integer within the ranges:\n".to_owned();
        m.append(self.orig_text.as_str());
        m
    }

    /// Success exactly when the observed line is an integer inside one of
    /// the ranges.
    pub fn validate(&self, observed: &Vec<u8>) -> (r: OpReport)
        ensures
            r is Success <==> self.accepts(observed@),
            r matches OpReport::Failure { error_message } ==> error_message@ == int_failure_text(
                self.source(),
                observed_text(observed@),
            ),
    {
        self.validate_text(read_lossy(observed).as_str())
    }

    /// Success exactly when `line` is an integer inside one of the ranges.
    pub fn validate_text(&self, line: &str) -> (r: OpReport)
        ensures
            r is Success <==> (decimal_value(line@) matches Some(v) && self.holds(v)),
            r matches OpReport::Failure { error_message } ==> error_message@ == int_failure_text(
                self.source(),
                line@,
            ),
    {
        match parse_i64(line) {
            Ok(num) => {
                let mut i: usize = 0;
                while i < self.ranges.len()
                    invariant
                        0 <= i <= self.ranges.len(),
                        decimal_value(line@) == Some(num as int),
                        forall|j: int| 0 <= j < i ==> !((#[trigger] self.ranges[j]).0 <= num <= self.ranges[j].1),
                    decreases self.ranges.len() - i,
                {
                    if self.ranges[i].0 <= num && num <= self.ranges[i].1 {
                        assert(self.range_seq()[i as int] == (self.ranges[i as int].0 as int, self.ranges[i as int].1 as int));
                        assert(self.holds(num as int));
                        return OpReport::Success;
                    }
                    i = i + 1;
                }
                assert(!self.holds(num as int)) by {
                    assert forall|j: int| 0 <= j < self.range_seq().len() implies !((#[trigger] self.range_seq()[j]).0
                        <= num <= self.range_seq()[j].1) by {
                        assert(self.range_seq()[j] == (self.ranges[j].0 as int, self.ranges[j].1 as int));
                    }
                }
                OpReport::Failure { error_message: self.failure_msg() }
            },
            Err(e) => {
                let mut m = "Expected an integer (it does not convert: ".to_owned();
                m.append(e.as_str());
                m.append(")");
                OpReport::Failure { error_message: m }
            },
        }
    }

    /// A random integer of the ranges, written in decimal: a range is
    /// picked with a likelihood in proportion to its size, then a value in
    /// it.
    pub fn generate(&self) -> (r: Vec<u8>)
        ensures
            self.can_produce(r@),
    {
        proof {
            use_type_invariant(self);
        }
        let (lo, hi) = match choose_weighted_range(&self.ranges) {
            Some(x) => x,
            None => self.ranges[0],
        };
        let ghost k = choose|k: int| 0 <= k < self.ranges.len() && self.ranges[k] == (lo, hi);
        let v = random_in(lo, hi);
        let s = i64_text(v);
        let out = utf8_bytes(&s);
        assert(self.range_seq()[k] == (lo as int, hi as int));
        assert(self.holds(v as int));
        out
    }

    /// Reads integer-range text: lines, each a comma-separated list of
    /// pieces `A..B` or `A`, with white space allowed around every part.
    pub fn parse(text: &str) -> (r: Result<IntRanges, RuleError>)
        ensures
            match r {
                Ok(v) => int_ranges_read(text@, v),
                Err(e) => int_ranges_refused(text@, e),
            },
    {
        let cs = chars_of(text);
        let lines_at = line_spans(&cs);
        let ghost all_lines = lines(text@);
        let mut ranges: Vec<(i64, i64)> = Vec::new();
        proof {
            assert(all_lines.skip(0) =~= all_lines);
            assert(int_pairs(ranges@) =~= Seq::<(int, int)>::empty());
            lemma_after_empty(lines_meaning(all_lines));
        }
        for li in 0..lines_at.len()
            invariant
                cs@ == text@,
                spans_text(cs@, lines_at@) == all_lines,
                spans_within(lines_at@, 0, cs.len() as int),
                all_lines == lines(text@),
                lines_meaning(all_lines) == after(int_pairs(ranges@), lines_meaning(all_lines.skip(li as int))),
                forall|i: int| 0 <= i < ranges.len() ==> (#[trigger] ranges[i]).0 <= ranges[i].1,
        {
            let (ls, le) = lines_at[li];
            let ghost line = all_lines[li as int];
            assert(all_lines.len() == lines_at.len());
            assert(line == cs@.subrange(ls as int, le as int));
            let pieces = split_spans(&cs, ls, le, ',');
            let ghost ps = line_pieces(line);
            let ghost before = ranges@;
            proof {
                assert(ps.skip(0) =~= ps);
                assert(ranges@.skip(before.len() as int) =~= Seq::<(i64, i64)>::empty());
                assert(int_pairs(ranges@.skip(before.len() as int)) =~= Seq::<(int, int)>::empty());
                lemma_after_empty(pieces_meaning(ps));
            }
            assert(all_lines.skip(li as int)[0] == line);
            assert(all_lines.skip(li as int).drop_first() =~= all_lines.skip(li + 1));
            for pi in 0..pieces.len()
                invariant
                    cs@ == text@,
                    ls <= le <= cs.len(),
                    line == cs@.subrange(ls as int, le as int),
                    spans_text(cs@, pieces@) == split(line, ','),
                    spans_within(pieces@, ls as int, le as int),
                    ps == line_pieces(line),
                    0 <= li < all_lines.len(),
                    line == all_lines[li as int],
                    all_lines == lines(text@),
                    lines_meaning(all_lines) == after(int_pairs(before), lines_meaning(all_lines.skip(li as int))),
                    ranges@.len() >= before.len(),
                    ranges@.take(before.len() as int) == before,
                    pieces_meaning(ps) == after(int_pairs(ranges@.skip(before.len() as int)), pieces_meaning(ps.skip(pi as int))),
                    forall|i: int| 0 <= i < ranges.len() ==> (#[trigger] ranges[i]).0 <= ranges[i].1,
            {
                let (ps_lo, ps_hi) = pieces[pi];
                let (ts, te) = trim_span(&cs, ps_lo, ps_hi);
                let ghost e = cs@.subrange(ts as int, te as int);
                assert(e == ps[pi as int]);
                assert(ps.skip(pi as int)[0] == e);
                assert(ps.skip(pi as int).drop_first() =~= ps.skip(pi + 1));
                let ghost old_ranges = ranges@;
                match dots_in(&cs, ts, te) {
                    Some(d) => {
                        let ghost dd = d - ts;
                        let (a_lo, a_hi) = trim_span(&cs, ts, d);
                        assert(cs@.subrange(ts as int, d as int) =~= e.take(dd));
                        let start = match Self::parse_int(text, &cs, a_lo, a_hi, ls, le) {
                            Ok(v) => v,
                            Err(err) => {
                                proof {
                                    lemma_fault_spreads(all_lines, li as int, int_pairs(before),
                                        int_pairs(ranges@.skip(before.len() as int)), pi as int, RangeFault::Malformed);
                                }
                                return Err(err);
                            },
                        };
                        let (b_lo, b_hi) = trim_span(&cs, d + 2, te);
                        assert(cs@.subrange(d + 2, te as int) =~= e.skip(dd + 2));
                        let end = match Self::parse_int(text, &cs, b_lo, b_hi, ls, le) {
                            Ok(v) => v,
                            Err(err) => {
                                proof {
                                    lemma_fault_spreads(all_lines, li as int, int_pairs(before),
                                        int_pairs(ranges@.skip(before.len() as int)), pi as int, RangeFault::Malformed);
                                }
                                return Err(err);
                            },
                        };
                        if start > end {
                            proof {
                                lemma_fault_spreads(all_lines, li as int, int_pairs(before),
                                    int_pairs(ranges@.skip(before.len() as int)), pi as int, RangeFault::Inverted(start, end));
                                assert(ranges_meaning(text@) == Err::<Seq<(int, int)>, _>(
                                    (all_lines[li as int], RangeFault::Inverted(start, end)),
                                ));
                            }
                            return Err(RuleError::InvertedRange { start, end });
                        }
                        proof {
                            lemma_piece_adds(ps, int_pairs(ranges@.skip(before.len() as int)), pi as int, (start as int, end as int));
                        }
                        ranges.push((start, end));
                    },
                    None => {
                        let v = match Self::parse_int(text, &cs, ts, te, ls, le) {
                            Ok(v) => v,
                            Err(err) => {
                                proof {
                                    lemma_fault_spreads(all_lines, li as int, int_pairs(before),
                                        int_pairs(ranges@.skip(before.len() as int)), pi as int, RangeFault::Malformed);
                                }
                                return Err(err);
                            },
                        };
                        proof {
                            lemma_piece_adds(ps, int_pairs(ranges@.skip(before.len() as int)), pi as int, (v as int, v as int));
                        }
                        ranges.push((v, v));
                    },
                }
                assert(ranges@.take(before.len() as int) =~= before);
                assert(int_pairs(ranges@.skip(before.len() as int)) =~= int_pairs(old_ranges.skip(before.len() as int)).push(int_pairs(ranges@).last()));
            }
            proof {
                let inner = int_pairs(ranges@.skip(before.len() as int));
                assert(ps.skip(pieces.len() as int) =~= Seq::<Seq<char>>::empty());
                assert(inner + Seq::<(int, int)>::empty() =~= inner);
                assert(pieces_meaning(ps) == Ok::<_, RangeFault>(inner));
                assert(lines_meaning(all_lines.skip(li as int)) == after(inner, lines_meaning(all_lines.skip(li + 1))));
                lemma_after_after(int_pairs(before), inner, lines_meaning(all_lines.skip(li + 1)));
                assert(ranges@ =~= before + ranges@.skip(before.len() as int));
                assert(int_pairs(ranges@) =~= int_pairs(before) + inner);
            }
        }
        assert(all_lines.skip(lines_at.len() as int) =~= Seq::<Seq<char>>::empty());
        if ranges.len() == 0 {
            assert(int_pairs(ranges@) =~= Seq::<(int, int)>::empty());
            return Err(RuleError::EmptyRanges);
        }
        Ok(IntRanges { ranges, orig_text: text.to_owned() })
    }

    /// Reads the integer in `cs[lo..hi]`, a part of the line `cs[line_lo..line_hi]`
    /// of `text`; a token that is no integer is reported with that line and
    /// its position in it.
    fn parse_int(
        text: &str,
        cs: &Vec<char>,
        lo: usize,
        hi: usize,
        line_lo: usize,
        line_hi: usize,
    ) -> (r: Result<i64, RuleError>)
        requires
            cs@ == text@,
            line_lo <= lo <= hi <= line_hi <= cs.len(),
        ensures
            match r {
                Ok(v) => decimal_value(cs@.subrange(lo as int, hi as int)) == Some(v as int),
                Err(RuleError::BadNumber { line, offset, reason }) => {
                    &&& decimal_value(cs@.subrange(lo as int, hi as int)) is None
                    &&& line@ == cs@.subrange(line_lo as int, line_hi as int)
                    &&& offset == lo - line_lo
                    &&& line@.subrange(offset as int, hi - line_lo) == cs@.subrange(lo as int, hi as int)
                    &&& reason@ == int_error_text(cs@.subrange(lo as int, hi as int))
                },
                Err(_) => false,
            },
    {
        let token = text.substring_char(lo, hi);
        match parse_i64(token) {
            Ok(v) => Ok(v),
            Err(e) => Err(
                RuleError::BadNumber {
                    line: text.substring_char(line_lo, line_hi).to_owned(),
                    offset: lo - line_lo,
                    reason: e,
                },
            ),
        }
    }
}

} // verus!
