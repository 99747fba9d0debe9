//! One entry of a rule script as its author writes it: a direction, a
//! kind of content and the text of the rule.

use vstd::prelude::*;
use crate::rules::{IntRanges, PlainText, RegExpr, Rule, RuleError, int_ranges_read, int_ranges_refused, ranges_meaning, regex_read, regex_refused, strip_terminators};

verus! {

/// Whether a rule makes a line for the program or checks one from it.
#[derive(Clone, Copy, Debug, PartialEq, Eq, Structural, Hash)]
pub enum RuleType {
    Input,
    Output,
}

impl RuleType {
    /// The direction as a word.
    pub fn label(&self) -> (r: &'static str) {
        match self {
            RuleType::Input => "input",
            RuleType::Output => "output",
        }
    }
}

/// How the text of a rule is read.
#[derive(Clone, Copy, Debug, PartialEq, Eq, Structural, Hash)]
pub enum ContentType {
    PlainText,
    Regex,
    IntRanges,
}

/// A rule as written: a name for its author, a direction, a kind and a text.
#[derive(Clone, Debug)]
pub struct RuleData {
    pub name: String,
    pub rule_type: RuleType,
    pub content_type: ContentType,
    pub text: String,
}

impl Default for RuleData {
    /// An input rule of empty literal text with no name.
    fn default() -> (r: RuleData)
        ensures
            r.name@.len() == 0,
            r.rule_type == RuleType::Input,
            r.content_type == ContentType::PlainText,
            r.text@.len() == 0,
    {
        RuleData {
            name: String::new(),
            rule_type: RuleType::Input,
            content_type: ContentType::PlainText,
            text: String::new(),
        }
    }
}

/// Was `rule` read from the text `text` as a rule of kind `kind`?
pub open spec fn rule_read_from(kind: ContentType, text: Seq<char>, rule: Rule) -> bool {
    match rule {
        Rule::PlainText(p) => kind == ContentType::PlainText && p.literal() == strip_terminators(
            text,
        ),
        Rule::IntRanges(v) => kind == ContentType::IntRanges && ranges_meaning(text) == Ok::<
            _,
            (Seq<char>, crate::rules::RangeFault),
        >(v.range_seq()) && v.source() == text,
        Rule::RegExpr(x) => kind == ContentType::Regex && x.source() == text,
    }
}

impl RuleData {
    /// The rule that the text denotes for its kind.
    pub fn to_rule(&self) -> (r: Result<Rule, RuleError>)
        ensures
            r matches Ok(rule) ==> rule_read_from(self.content_type, self.text@, rule),
            self.content_type == ContentType::PlainText ==> r is Ok,
            self.content_type == ContentType::IntRanges ==> (r is Ok <==> (ranges_meaning(
                self.text@,
            ) matches Ok(rs) && rs.len() > 0)),
            match self.content_type {
                ContentType::PlainText => r matches Ok(Rule::PlainText(p)) && p.literal()
                    == strip_terminators(self.text@),
                ContentType::IntRanges => match r {
                    Ok(Rule::IntRanges(v)) => int_ranges_read(self.text@, v),
                    Ok(_) => false,
                    Err(e) => int_ranges_refused(self.text@, e),
                },
                ContentType::Regex => match r {
                    Ok(Rule::RegExpr(x)) => regex_read(self.text@, x),
                    Ok(_) => false,
                    Err(e) => regex_refused(self.text@, e),
                },
            },
    {
        match self.content_type {
            ContentType::PlainText => Ok(Rule::PlainText(PlainText::parse(self.text.as_str()))),
            ContentType::Regex => match RegExpr::parse(self.text.as_str()) {
                Ok(x) => Ok(Rule::RegExpr(x)),
                Err(e) => Err(e),
            },
            ContentType::IntRanges => match IntRanges::parse(self.text.as_str()) {
                Ok(v) => Ok(Rule::IntRanges(v)),
                Err(e) => Err(e),
            },
        }
    }
}

} // verus!
