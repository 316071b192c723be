//! Tag expressions: boolean queries over tags such as
//! `@a and not (@b or @c)`. `or` binds loosest, then `and`, then the prefix
//! `not`; parentheses group. A tag is `@` and one or more characters other
//! than whitespace, `@`, `(`, `)` and `\`; a `\` escapes one of `\`, `(`, `)`
//! or a space.

use vstd::prelude::*;
use crate::grammar::sp;
use crate::syntax::skip_blanks;
use crate::parser::{prefix_at, starts_with_at};
use crate::text::{chars_of, is_whitespace, is_ws, string_of};

verus! {

/// A parsed tree of operations over tags.
#[derive(Debug, PartialEq, Eq)]
pub enum TagOperation {
    And(Box<TagOperation>, Box<TagOperation>),
    Or(Box<TagOperation>, Box<TagOperation>),
    Not(Box<TagOperation>),
    Tag(String),
}

impl Clone for TagOperation {
    fn clone(&self) -> (r: TagOperation)
        ensures
            tree(r) == tree(*self),
        decreases self,
    {
        match self {
            TagOperation::And(a, b) => TagOperation::And(
                Box::new((**a).clone()),
                Box::new((**b).clone()),
            ),
            TagOperation::Or(a, b) => TagOperation::Or(Box::new((**a).clone()), Box::new((**b).clone())),
            TagOperation::Not(a) => TagOperation::Not(Box::new((**a).clone())),
            TagOperation::Tag(t) => TagOperation::Tag(t.clone()),
        }
    }
}

/// The mathematical form of a `TagOperation`.
pub enum TagTree {
    And(Box<TagTree>, Box<TagTree>),
    Or(Box<TagTree>, Box<TagTree>),
    Not(Box<TagTree>),
    Tag(Seq<char>),
}

pub open spec fn tree(op: TagOperation) -> TagTree
    decreases op,
{
    match op {
        TagOperation::And(a, b) => TagTree::And(Box::new(tree(*a)), Box::new(tree(*b))),
        TagOperation::Or(a, b) => TagTree::Or(Box::new(tree(*a)), Box::new(tree(*b))),
        TagOperation::Not(a) => TagTree::Not(Box::new(tree(*a))),
        TagOperation::Tag(s) => TagTree::Tag(s@),
    }
}

/// A tag character that stands for itself.
pub open spec fn is_plain(c: char) -> bool {
    !is_ws(c) && c != '@' && c != '(' && c != ')' && c != '\\'
}

/// A character that a `\` may escape.
pub open spec fn is_escapable(c: char) -> bool {
    c == '\\' || c == '(' || c == ')' || c == ' '
}

/// The tag text from `q` on: its decoded characters and where it ends, or
/// `None` at a bad escape.
pub open spec fn tag_rest(cs: Seq<char>, q: int) -> Option<(Seq<char>, int)>
    decreases cs.len() - q,
{
    if 0 <= q < cs.len() && cs[q] == '\\' {
        if q + 1 < cs.len() && is_escapable(cs[q + 1]) {
            match tag_rest(cs, q + 2) {
                Some((s, e)) => Some((seq![cs[q + 1]] + s, e)),
                None => None,
            }
        } else {
            None
        }
    } else if 0 <= q < cs.len() && is_plain(cs[q]) {
        match tag_rest(cs, q + 1) {
            Some((s, e)) => Some((seq![cs[q]] + s, e)),
            None => None,
        }
    } else {
        Some((seq![], q))
    }
}

/// A tag at `p`: `@` and at least one (possibly escaped) character.
pub open spec fn tag_at(cs: Seq<char>, p: int) -> Option<(Seq<char>, int)> {
    if 0 <= p < cs.len() && cs[p] == '@' {
        match tag_rest(cs, p + 1) {
            Some((s, e)) => if e > p + 1 {
                Some((s, e))
            } else {
                None
            },
            None => None,
        }
    } else {
        None
    }
}

/// An `or` chain at `p`.
pub open spec fn or_at(cs: Seq<char>, p: int) -> Option<(TagTree, int)>
    decreases cs.len() - p, 3nat,
{
    match and_at(cs, p) {
        Some((t, q)) => if p < q <= cs.len() {
            or_rest(cs, t, q)
        } else {
            None
        },
        None => None,
    }
}

/// More of an `or` chain whose left part `acc` ends at `q`.
pub open spec fn or_rest(cs: Seq<char>, acc: TagTree, q: int) -> Option<(TagTree, int)>
    decreases cs.len() - q, 4nat,
{
    let q1 = skip_blanks(cs, q);
    if q <= q1 && starts_with_at(cs, q1, "or"@) {
        let q2 = skip_blanks(cs, q1 + 2);
        if q1 + 2 <= q2 <= cs.len() {
            match and_at(cs, q2) {
                Some((t, q3)) => if q2 < q3 <= cs.len() {
                    or_rest(cs, TagTree::Or(Box::new(acc), Box::new(t)), q3)
                } else {
                    None
                },
                None => Some((acc, q)),
            }
        } else {
            None
        }
    } else {
        Some((acc, q))
    }
}

/// An `and` chain at `p`.
pub open spec fn and_at(cs: Seq<char>, p: int) -> Option<(TagTree, int)>
    decreases cs.len() - p, 2nat,
{
    match not_at(cs, p) {
        Some((t, q)) => if p < q <= cs.len() {
            and_rest(cs, t, q)
        } else {
            None
        },
        None => None,
    }
}

/// More of an `and` chain whose left part `acc` ends at `q`.
pub open spec fn and_rest(cs: Seq<char>, acc: TagTree, q: int) -> Option<(TagTree, int)>
    decreases cs.len() - q, 4nat,
{
    let q1 = skip_blanks(cs, q);
    if q <= q1 && starts_with_at(cs, q1, "and"@) {
        let q2 = skip_blanks(cs, q1 + 3);
        if q1 + 3 <= q2 <= cs.len() {
            match not_at(cs, q2) {
                Some((t, q3)) => if q2 < q3 <= cs.len() {
                    and_rest(cs, TagTree::And(Box::new(acc), Box::new(t)), q3)
                } else {
                    None
                },
                None => Some((acc, q)),
            }
        } else {
            None
        }
    } else {
        Some((acc, q))
    }
}

/// A `not` prefix, or an atom, at `p`.
pub open spec fn not_at(cs: Seq<char>, p: int) -> Option<(TagTree, int)>
    decreases cs.len() - p, 1nat,
{
    if starts_with_at(cs, p, "not"@) {
        let q = skip_blanks(cs, p + 3);
        if p + 3 <= q <= cs.len() {
            match not_at(cs, q) {
                Some((t, e)) => Some((TagTree::Not(Box::new(t)), e)),
                None => None,
            }
        } else {
            None
        }
    } else {
        atom_at(cs, p)
    }
}

/// A tag, or a parenthesised expression and the blanks after it, at `p`.
pub open spec fn atom_at(cs: Seq<char>, p: int) -> Option<(TagTree, int)>
    decreases cs.len() - p, 0nat,
{
    if 0 <= p < cs.len() && cs[p] == '@' {
        match tag_at(cs, p) {
            Some((s, e)) => Some((TagTree::Tag(s), e)),
            None => None,
        }
    } else if 0 <= p < cs.len() && cs[p] == '(' {
        match or_at(cs, p + 1) {
            Some((t, q)) => if p + 1 <= q && q < cs.len() && cs[q] == ')' {
                Some((t, skip_blanks(cs, q + 1)))
            } else {
                None
            },
            None => None,
        }
    } else {
        None
    }
}

/// The tree that the whole of `cs` parses to, if it is an expression.
pub open spec fn tag_expression(cs: Seq<char>) -> Option<TagTree> {
    match or_at(cs, 0) {
        Some((t, q)) => if q == cs.len() {
            Some(t)
        } else {
            None
        },
        None => None,
    }
}

/// `r`, an executable parse result, is `s`.
pub open spec fn same(r: Option<(TagOperation, usize)>, s: Option<(TagTree, int)>) -> bool {
    match r {
        Some((op, q)) => s == Some((tree(op), q as int)),
        None => s is None,
    }
}


/// `out` followed by the decoded text of `r`.
pub open spec fn prepend(out: Seq<char>, r: Option<(Seq<char>, int)>) -> Option<(Seq<char>, int)> {
    match r {
        Some((s, e)) => Some((out + s, e)),
        None => None,
    }
}

proof fn lemma_prepend(out: Seq<char>, c: char, r: Option<(Seq<char>, int)>)
    ensures
        prepend(out, prepend(seq![c], r)) == prepend(out.push(c), r),
{
    if let Some((s, e)) = r {
        assert(out + (seq![c] + s) =~= out.push(c) + s);
    }
}

fn plain(c: char) -> (r: bool)
    ensures
        r == is_plain(c),
{
    !is_whitespace(c) && c != '@' && c != '(' && c != ')' && c != '\\'
}

fn escapable(c: char) -> (r: bool)
    ensures
        r == is_escapable(c),
{
    c == '\\' || c == '(' || c == ')' || c == ' '
}

/// A tag at `p`, decoded.
fn tag_token(cs: &Vec<char>, p: usize) -> (r: Option<(String, usize)>)
    requires
        p <= cs@.len(),
    ensures
        r matches Some((s, e)) ==> tag_at(cs@, p as int) == Some((s@, e as int)) && p < e <= cs@.len(),
        r is None ==> tag_at(cs@, p as int) is None,
{
    let n = cs.len();
    if !(p < n && cs[p] == '@') {
        return None;
    }
    let mut out: Vec<char> = Vec::new();
    let mut q = p + 1;
    assert(out@ + seq![] == out@);
    while q < n && (cs[q] == '\\' || plain(cs[q]))
        invariant
            n == cs@.len(),
            p < n,
            p + 1 <= q <= n,
            tag_rest(cs@, p + 1) == prepend(out@, tag_rest(cs@, q as int)),
        decreases n - q,
    {
        if cs[q] == '\\' {
            if q + 1 < n && escapable(cs[q + 1]) {
                proof {
                    lemma_prepend(out@, cs@[q + 1], tag_rest(cs@, q + 2));
                }
                out.push(cs[q + 1]);
                q += 2;
            } else {
                return None;
            }
        } else {
            proof {
                lemma_prepend(out@, cs@[q as int], tag_rest(cs@, q + 1));
            }
            out.push(cs[q]);
            q += 1;
        }
    }
    assert(out@ + seq![] =~= out@);
    if q == p + 1 {
        return None;
    }
    let t = string_of(&out, 0, out.len());
    assert(out@.subrange(0, out@.len() as int) == out@);
    Some((t, q))
}

fn or_expr(cs: &Vec<char>, p: usize) -> (r: Option<(TagOperation, usize)>)
    requires
        p <= cs@.len(),
    ensures
        same(r, or_at(cs@, p as int)),
        r matches Some((_, q)) ==> p < q <= cs@.len(),
    decreases cs@.len() - p, 3nat,
{
    match and_expr(cs, p) {
        Some((t, q)) => or_more(cs, t, q),
        None => None,
    }
}

fn or_more(cs: &Vec<char>, acc: TagOperation, q: usize) -> (r: Option<(TagOperation, usize)>)
    requires
        q <= cs@.len(),
    ensures
        same(r, or_rest(cs@, tree(acc), q as int)),
        r matches Some((_, e)) ==> q <= e <= cs@.len(),
    decreases cs@.len() - q, 4nat,
{
    let _n = cs.len();
    let q1 = sp(cs, q);
    let word = chars_of("or");
    proof {
        reveal_strlit("or");
    }
    if !prefix_at(cs, q1, &word) {
        return Some((acc, q));
    }
    let q2 = sp(cs, q1 + 2);
    match and_expr(cs, q2) {
        Some((t, q3)) => or_more(cs, TagOperation::Or(Box::new(acc), Box::new(t)), q3),
        None => Some((acc, q)),
    }
}

fn and_expr(cs: &Vec<char>, p: usize) -> (r: Option<(TagOperation, usize)>)
    requires
        p <= cs@.len(),
    ensures
        same(r, and_at(cs@, p as int)),
        r matches Some((_, q)) ==> p < q <= cs@.len(),
    decreases cs@.len() - p, 2nat,
{
    match not_expr(cs, p) {
        Some((t, q)) => and_more(cs, t, q),
        None => None,
    }
}

fn and_more(cs: &Vec<char>, acc: TagOperation, q: usize) -> (r: Option<(TagOperation, usize)>)
    requires
        q <= cs@.len(),
    ensures
        same(r, and_rest(cs@, tree(acc), q as int)),
        r matches Some((_, e)) ==> q <= e <= cs@.len(),
    decreases cs@.len() - q, 4nat,
{
    let _n = cs.len();
    let q1 = sp(cs, q);
    let word = chars_of("and");
    proof {
        reveal_strlit("and");
    }
    if !prefix_at(cs, q1, &word) {
        return Some((acc, q));
    }
    let q2 = sp(cs, q1 + 3);
    match not_expr(cs, q2) {
        Some((t, q3)) => and_more(cs, TagOperation::And(Box::new(acc), Box::new(t)), q3),
        None => Some((acc, q)),
    }
}

fn not_expr(cs: &Vec<char>, p: usize) -> (r: Option<(TagOperation, usize)>)
    requires
        p <= cs@.len(),
    ensures
        same(r, not_at(cs@, p as int)),
        r matches Some((_, q)) ==> p < q <= cs@.len(),
    decreases cs@.len() - p, 1nat,
{
    let _n = cs.len();
    let word = chars_of("not");
    proof {
        reveal_strlit("not");
    }
    if prefix_at(cs, p, &word) {
        let q = sp(cs, p + 3);
        match not_expr(cs, q) {
            Some((t, e)) => Some((TagOperation::Not(Box::new(t)), e)),
            None => None,
        }
    } else {
        atom(cs, p)
    }
}

fn atom(cs: &Vec<char>, p: usize) -> (r: Option<(TagOperation, usize)>)
    requires
        p <= cs@.len(),
    ensures
        same(r, atom_at(cs@, p as int)),
        r matches Some((_, q)) ==> p < q <= cs@.len(),
    decreases cs@.len() - p, 0nat,
{
    let n = cs.len();
    if p < n && cs[p] == '@' {
        match tag_token(cs, p) {
            Some((s, e)) => Some((TagOperation::Tag(s), e)),
            None => None,
        }
    } else if p < n && cs[p] == '(' {
        match or_expr(cs, p + 1) {
            Some((t, q)) => if q < n && cs[q] == ')' {
                Some((t, sp(cs, q + 1)))
            } else {
                None
            },
            None => None,
        }
    } else {
        None
    }
}

/// A tag expression that does not parse.
#[derive(Debug, Clone, Copy, PartialEq, Eq)]
pub struct TagSyntaxError {
    /// The character offset where the parse stopped.
    pub offset: usize,
}

impl TagOperation {
    /// Parses the whole of `s` as a tag expression.
    pub fn parse(s: &str) -> (r: Result<TagOperation, TagSyntaxError>)
        ensures
            r matches Ok(op) ==> tag_expression(s@) == Some(tree(op)),
            r is Err ==> tag_expression(s@) is None,
            r matches Err(e) ==> e.offset <= s@.len(),
    {
        let cs = chars_of(s);
        match or_expr(&cs, 0) {
            Some((op, q)) => if q == cs.len() {
                Ok(op)
            } else {
                Err(TagSyntaxError { offset: q })
            },
            None => Err(TagSyntaxError { offset: 0 }),
        }
    }
}

impl core::str::FromStr for TagOperation {
    type Err = TagSyntaxError;

    fn from_str(s: &str) -> (r: Result<TagOperation, TagSyntaxError>)
        ensures
            r matches Ok(op) ==> tag_expression(s@) == Some(tree(op)),
            r is Err ==> tag_expression(s@) is None,
    {
        TagOperation::parse(s)
    }
}

} // verus!
