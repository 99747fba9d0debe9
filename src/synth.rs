//! Producing strings that a regular expression matches: a syntax tree of
//! the library's own, the sampling plan it lowers to, and the sampler.

use vstd::prelude::*;
use vstd::utf8::encode_utf8;
use crate::chance::{choose_below, choose_byte, choose_char, random_in};

verus! {

/// The parts of a regular expression's syntax tree that generation reads.
#[derive(Debug)]
pub enum Node {
    /// Matches the empty string.
    Empty,
    /// Matches exactly these bytes.
    Literal(Vec<u8>),
    /// One byte from closed ranges.
    Bytes(Vec<(u8, u8)>),
    /// One character from closed ranges.
    Chars(Vec<(char, char)>),
    /// A zero-width assertion, by the character that names it.
    Look(char),
    /// The sub-expression `min` or more times, at most `max` when given.
    Repetition { min: u32, max: Option<u32>, sub: Box<Node> },
    /// A capturing group.
    Capture(Box<Node>),
    /// The sub-expressions one after another.
    Concat(Vec<Node>),
    /// One of the sub-expressions.
    Alternation(Vec<Node>),
}

/// A sampling plan: what to write, and where to choose at random.
#[derive(Debug)]
pub enum Item {
    /// These bytes.
    Literal(Vec<u8>),
    /// One byte from the ranges; nothing when they are all empty.
    ByteChoice(Vec<(u8, u8)>),
    /// One character from the ranges, in UTF-8; nothing when they are all empty.
    CharChoice(Vec<(char, char)>),
    /// The plan a number of times between the two bounds.
    Repeat(Box<Item>, u32, u32),
    /// Each plan in turn.
    Sequence(Vec<Item>),
    /// One of the plans; nothing when there is none.
    AnyOf(Vec<Item>),
}

/// The pieces written one after another.
pub open spec fn concat(ps: Seq<Seq<u8>>) -> Seq<u8>
    decreases ps.len(),
{
    if ps.len() == 0 {
        seq![]
    } else {
        concat(ps.drop_last()) + ps.last()
    }
}

pub open spec fn in_byte_class(rs: Seq<(u8, u8)>, b: u8) -> bool {
    exists|i: int| 0 <= i < rs.len() && (#[trigger] rs[i]).0 <= b <= rs[i].1
}

pub open spec fn byte_class_empty(rs: Seq<(u8, u8)>) -> bool {
    forall|i: int| 0 <= i < rs.len() ==> (#[trigger] rs[i]).0 > rs[i].1
}

pub open spec fn in_char_class(rs: Seq<(char, char)>, c: char) -> bool {
    exists|i: int|
        0 <= i < rs.len() && ((#[trigger] rs[i]).0 as u32) <= (c as u32) <= (rs[i].1 as u32)
}

pub open spec fn char_class_empty(rs: Seq<(char, char)>) -> bool {
    forall|i: int| 0 <= i < rs.len() ==> ((#[trigger] rs[i]).0 as u32) > (rs[i].1 as u32)
}

/// Can the plan write exactly `s`?
pub open spec fn yields(it: Item, s: Seq<u8>) -> bool
    decreases it,
{
    match it {
        Item::Literal(l) => s == l@,
        Item::ByteChoice(rs) => if byte_class_empty(rs@) {
            s.len() == 0
        } else {
            s.len() == 1 && in_byte_class(rs@, s[0])
        },
        Item::CharChoice(rs) => if char_class_empty(rs@) {
            s.len() == 0
        } else {
            exists|c: char| in_char_class(rs@, c) && s == encode_utf8(seq![c])
        },
        Item::Repeat(sub, lo, hi) => exists|ps: Seq<Seq<u8>>|
            {
                &&& lo <= ps.len() <= hi
                &&& s == concat(ps)
                &&& forall|i: int| 0 <= i < ps.len() ==> yields(*sub, #[trigger] ps[i])
            },
        Item::Sequence(items) => exists|ps: Seq<Seq<u8>>|
            {
                &&& ps.len() == items.len()
                &&& s == concat(ps)
                &&& forall|i: int| 0 <= i < ps.len() ==> yields(items[i], #[trigger] ps[i])
            },
        Item::AnyOf(items) => if items.len() == 0 {
            s.len() == 0
        } else {
            exists|i: int| 0 <= i < items.len() && yields(#[trigger] items[i], s)
        },
    }
}

/// Every repetition in the plan has its lower bound at most its upper one.
pub open spec fn plan_wf(it: Item) -> bool
    decreases it,
{
    match it {
        Item::Repeat(sub, lo, hi) => lo <= hi && plan_wf(*sub),
        Item::Sequence(items) => forall|i: int| 0 <= i < items.len() ==> plan_wf(#[trigger] items[i]),
        Item::AnyOf(items) => forall|i: int| 0 <= i < items.len() ==> plan_wf(#[trigger] items[i]),
        _ => true,
    }
}

/// An element-by-element copy.
fn copy_vec<T: Copy>(v: &Vec<T>) -> (r: Vec<T>)
    ensures
        r@ == v@,
{
    let mut r: Vec<T> = Vec::new();
    for i in 0..v.len()
        invariant
            r@ == v@.take(i as int),
    {
        r.push(v[i]);
        assert(v@.take(i + 1) =~= v@.take(i as int).push(v@[i as int]));
    }
    assert(v@.take(v.len() as int) =~= v@);
    r
}

/// How many times a repetition is sampled: `*` and `+` up to forty
/// times, `{n,}` up to twice `n` (saturating), `{n,m}` as written (a
/// maximum below the minimum, which regex-syntax refuses, counts as the
/// minimum).
pub open spec fn repeat_bounds(min: u32, max: Option<u32>) -> (u32, u32) {
    match max {
        None => if min == 0 {
            (0, 40)
        } else if min == 1 {
            (1, 40)
        } else if 2 * min > u32::MAX {
            (min, u32::MAX)
        } else {
            (min, (2 * min) as u32)
        },
        Some(m) => (min, if m < min {
            min
        } else {
            m
        }),
    }
}

/// Does the tree hold the zero-width assertion named `c`?
pub open spec fn has_look(n: Node, c: char) -> bool
    decreases n,
{
    match n {
        Node::Look(l) => l == c,
        Node::Repetition { sub, .. } => has_look(*sub, c),
        Node::Capture(sub) => has_look(*sub, c),
        Node::Concat(ns) => exists|i: int| 0 <= i < ns.len() && has_look(#[trigger] ns[i], c),
        Node::Alternation(ns) => exists|i: int| 0 <= i < ns.len() && has_look(#[trigger] ns[i], c),
        _ => false,
    }
}

/// Does the tree hold any zero-width assertion?
pub open spec fn has_any_look(n: Node) -> bool {
    exists|c: char| has_look(n, c)
}

/// Is `it` the plan of the tree `n`? Literals and classes are kept,
/// capturing groups are transparent, repetitions get the bounds of
/// `repeat_bounds`, concatenations and alternations keep their parts.
pub open spec fn lowers_to(n: Node, it: Item) -> bool
    decreases n,
{
    match n {
        Node::Empty => it matches Item::Literal(l) && l@.len() == 0,
        Node::Literal(b) => it matches Item::Literal(l) && l@ == b@,
        Node::Bytes(rs) => it matches Item::ByteChoice(c) && c@ == rs@,
        Node::Chars(rs) => it matches Item::CharChoice(c) && c@ == rs@,
        Node::Look(_) => false,
        Node::Repetition { min, max, sub } => match it {
            Item::Repeat(s, lo, hi) => (lo, hi) == repeat_bounds(min, max) && lowers_to(*sub, *s),
            _ => false,
        },
        Node::Capture(sub) => lowers_to(*sub, it),
        Node::Concat(ns) => match it {
            Item::Sequence(is) => is.len() == ns.len() && forall|i: int|
                0 <= i < ns.len() ==> lowers_to(#[trigger] ns[i], is[i]),
            _ => false,
        },
        Node::Alternation(ns) => match it {
            Item::AnyOf(is) => is.len() == ns.len() && forall|i: int|
                0 <= i < ns.len() ==> lowers_to(#[trigger] ns[i], is[i]),
            _ => false,
        },
    }
}

/// The sampling bounds of a repetition.
pub fn repeat_range(min: u32, max: Option<u32>) -> (r: (u32, u32))
    ensures
        r == repeat_bounds(min, max),
{
    match max {
        None => if min == 0 {
            (0, 40)
        } else if min == 1 {
            (1, 40)
        } else if min > u32::MAX / 2 {
            (min, u32::MAX)
        } else {
            (min, min * 2)
        },
        Some(m) => (min, if m < min {
            min
        } else {
            m
        }),
    }
}

/// The sampling plan of a syntax tree, or the first zero-width assertion
/// in it, which no plan can honour.
pub fn generate_regex_item(node: &Node) -> (r: Result<Item, char>)
    ensures
        r is Err <==> has_any_look(*node),
        r matches Err(c) ==> has_look(*node, c),
        r matches Ok(it) ==> lowers_to(*node, it) && plan_wf(it),
    decreases node,
{
    match node {
        Node::Empty => Ok(Item::Literal(Vec::new())),
        Node::Literal(b) => Ok(Item::Literal(copy_vec(b))),
        Node::Bytes(rs) => Ok(Item::ByteChoice(copy_vec(rs))),
        Node::Chars(rs) => Ok(Item::CharChoice(copy_vec(rs))),
        Node::Look(c) => {
            assert(has_look(*node, *c));
            Err(*c)
        },
        Node::Repetition { min, max, sub } => {
            match generate_regex_item(sub) {
                Ok(item) => {
                    let (lo, hi) = repeat_range(*min, *max);
                    assert forall|c: char| !has_look(*node, c) by {
                        assert(!has_look(**sub, c));
                    }
                    Ok(Item::Repeat(Box::new(item), lo, hi))
                },
                Err(c) => {
                    assert(has_look(*node, c));
                    Err(c)
                },
            }
        },
        Node::Capture(sub) => {
            let r = generate_regex_item(sub);
            assert forall|c: char| has_look(*node, c) == has_look(**sub, c) by {}
            if let Err(c) = r {
                assert(has_look(*node, c));
            }
            r
        },
        Node::Concat(ns) => {
            let r = lower_all(ns);
            proof {
                lemma_lower_all_looks(*node, *ns, r is Err);
            }
            match r {
                Ok(items) => {
                    Ok(Item::Sequence(items))
                },
                Err(c) => {
                    assert(has_look(*node, c));
                    Err(c)
                },
            }
        },
        Node::Alternation(ns) => {
            let r = lower_all(ns);
            proof {
                lemma_lower_all_looks(*node, *ns, r is Err);
            }
            match r {
                Ok(items) => {
                    Ok(Item::AnyOf(items))
                },
                Err(c) => {
                    assert(has_look(*node, c));
                    Err(c)
                },
            }
        },
    }
}

proof fn lemma_lower_all_looks(node: Node, ns: Vec<Node>, failed: bool)
    requires
        (node matches Node::Concat(v) && v == ns) || (node matches Node::Alternation(v) && v == ns),
        failed <==> exists|i: int| 0 <= i < ns.len() && has_any_look(#[trigger] ns[i]),
    ensures
        failed <==> has_any_look(node),
        forall|c: char| has_look(node, c) <==> exists|i: int| 0 <= i < ns.len() && has_look(#[trigger] ns[i], c),
{
    if failed {
        let i = choose|i: int| 0 <= i < ns.len() && has_any_look(#[trigger] ns[i]);
        let c = choose|c: char| has_look(ns[i], c);
        assert(has_look(node, c));
    } else {
        assert forall|c: char| !has_look(node, c) by {
            if has_look(node, c) {
                let i = choose|i: int| 0 <= i < ns.len() && has_look(#[trigger] ns[i], c);
                assert(has_any_look(ns[i]));
            }
        }
    }
}

/// The plans of each tree in turn, or the first zero-width assertion.
fn lower_all(ns: &Vec<Node>) -> (r: Result<Vec<Item>, char>)
    ensures
        r is Err <==> exists|i: int| 0 <= i < ns.len() && has_any_look(#[trigger] ns[i]),
        r matches Err(c) ==> exists|i: int| 0 <= i < ns.len() && has_look(#[trigger] ns[i], c),
        r matches Ok(is) ==> is.len() == ns.len() && (forall|i: int|
            0 <= i < ns.len() ==> lowers_to(#[trigger] ns[i], is[i])) && (forall|i: int|
            0 <= i < is.len() ==> plan_wf(#[trigger] is[i])),
    decreases ns,
{
    let mut items: Vec<Item> = Vec::new();
    for k in 0..ns.len()
        invariant
            items.len() == k,
            forall|i: int| 0 <= i < k ==> !has_any_look(#[trigger] ns[i]),
            forall|i: int| 0 <= i < k ==> lowers_to(#[trigger] ns[i], items[i]),
            forall|i: int| 0 <= i < k ==> plan_wf(#[trigger] items[i]),
    {
        match generate_regex_item(&ns[k]) {
            Ok(item) => {
                assert(lowers_to(ns[k as int], item) && plan_wf(item));
                let ghost before = items@;
                items.push(item);
                assert(forall|i: int| 0 <= i < k ==> items[i] == before[i]);
            },
            Err(c) => {
                return Err(c);
            },
        }
    }
    Ok(items)
}

proof fn lemma_concat_push(ps: Seq<Seq<u8>>, p: Seq<u8>)
    ensures
        concat(ps.push(p)) == concat(ps) + p,
{
    assert(ps.push(p).drop_last() =~= ps);
}

impl Item {
    /// Writes one sample of the plan after what `out` holds.
    #[verifier::loop_isolation(false)]
    pub fn append_to(&self, out: &mut Vec<u8>)
        requires
            plan_wf(*self),
        ensures
            exists|p: Seq<u8>| yields(*self, p) && final(out)@ == old(out)@ + p,
        decreases self,
    {
        let ghost start = out@;
        match self {
            Item::Literal(lit) => {
                push_bytes(out, lit);
                assert(yields(*self, lit@));
            },
            Item::ByteChoice(ranges) => {
                match choose_byte(ranges) {
                    Some(b) => {
                        out.push(b);
                        assert(yields(*self, seq![b]));
                        assert(out@ =~= start + seq![b]);
                    },
                    None => {
                        assert(yields(*self, seq![]));
                        assert(out@ =~= start + Seq::<u8>::empty());
                    },
                }
            },
            Item::CharChoice(ranges) => {
                match choose_char(ranges) {
                    Some(c) => {
                        push_char(out, c);
                        assert(yields(*self, encode_utf8(seq![c])));
                    },
                    None => {
                        assert(yields(*self, seq![]));
                        assert(out@ =~= start + Seq::<u8>::empty());
                    },
                }
            },
            Item::Repeat(sub, lo, hi) => {
                let count = random_in(*lo as i64, *hi as i64);
                let mut k: i64 = 0;
                let ghost mut ps: Seq<Seq<u8>> = seq![];
                while k < count
                    invariant
                        0 <= k <= count,
                        *lo <= count <= *hi,
                        plan_wf(**sub),
                        ps.len() == k,
                        out@ == start + concat(ps),
                        forall|i: int| 0 <= i < ps.len() ==> yields(**sub, #[trigger] ps[i]),
                    decreases count - k,
                {
                    let ghost before = out@;
                    sub.append_to(out);
                    let ghost p = choose|p: Seq<u8>| yields(**sub, p) && out@ == before + p;
                    proof {
                        lemma_concat_push(ps, p);
                        ps = ps.push(p);
                    }
                    assert(out@ =~= start + concat(ps));
                    k = k + 1;
                }
                assert(yields(*self, concat(ps)));
            },
            Item::Sequence(items) => {
                let ghost mut ps: Seq<Seq<u8>> = seq![];
                for k in 0..items.len()
                    invariant
                        forall|i: int| 0 <= i < items.len() ==> plan_wf(#[trigger] items[i]),
                        ps.len() == k,
                        out@ == start + concat(ps),
                        forall|i: int| 0 <= i < ps.len() ==> yields(items[i], #[trigger] ps[i]),
                {
                    let ghost before = out@;
                    items[k].append_to(out);
                    let ghost p = choose|p: Seq<u8>| yields(items[k as int], p) && out@ == before + p;
                    proof {
                        lemma_concat_push(ps, p);
                        ps = ps.push(p);
                    }
                    assert(out@ =~= start + concat(ps));
                }
                assert(yields(*self, concat(ps)));
            },
            Item::AnyOf(items) => {
                if items.len() == 0 {
                    assert(yields(*self, seq![]));
                    assert(out@ =~= start + Seq::<u8>::empty());
                } else {
                    let k = match choose_below(items.len()) {
                        Some(k) => k,
                        None => 0,
                    };
                    items[k].append_to(out);
                    let ghost p = choose|p: Seq<u8>| yields(items[k as int], p) && out@ == start + p;
                    assert(yields(*self, p));
                }
            },
        }
    }
}

/// Relies on bstr's `ByteVec::push_char`, which appends the UTF-8
/// encoding of the character.
#[verifier::external_body]
fn push_char(out: &mut Vec<u8>, c: char)
    ensures
        final(out)@ == old(out)@ + encode_utf8(seq![c]),
{
    bstr::ByteVec::push_char(out, c)
}

fn push_bytes(out: &mut Vec<u8>, b: &Vec<u8>)
    ensures
        final(out)@ == old(out)@ + b@,
{
    let ghost start = out@;
    let mut i: usize = 0;
    while i < b.len()
        invariant
            0 <= i <= b.len(),
            out@ == start + b@.take(i as int),
        decreases b.len() - i,
    {
        out.push(b[i]);
        assert(b@.take(i + 1) =~= b@.take(i as int).push(b@[i as int]));
        i = i + 1;
    }
    assert(b@.take(i as int) =~= b@);
}

} // verus!
