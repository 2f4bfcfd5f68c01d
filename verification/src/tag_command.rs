//! The tag-expression engine: parses `PATTERN:OPERATION:TAGLIST` rule
//! strings, silently discarding invalid ones, and applies the valid rules to
//! every report entry whose path the pattern matches, in rule order.

use vstd::prelude::*;
use crate::pattern::{regex_matches, regex_valid, CompiledPattern};
use crate::strutil::{find_char, lemma_first_index, spec_first_index, str_eq};
use crate::test_report::{EntryModel, TestReport, TestReportTest};

verus! {

/// The three tag mutations a rule can ask for.
#[derive(Debug, Clone, Copy, PartialEq, Eq, Structural)]
pub enum TagOperation {
    Add,
    Remove,
    Update,
}

/// Mathematical model of a parsed rule: the pattern text, the operation,
/// and the tag list.
pub struct ExprModel {
    pub pattern: Seq<char>,
    pub operation: TagOperation,
    pub tags: Seq<Seq<char>>,
}

/// A rule compiled and ready to apply.
pub struct ParsedExpression {
    expression: CompiledPattern,
    operation: TagOperation,
    tags: Vec<String>,
}

impl View for ParsedExpression {
    type V = ExprModel;

    closed spec fn view(&self) -> ExprModel {
        ExprModel {
            pattern: self.expression.spec_source(),
            operation: self.operation,
            tags: self.tags.deep_view(),
        }
    }
}

impl DeepView for ParsedExpression {
    type V = ExprModel;

    closed spec fn deep_view(&self) -> ExprModel {
        self.view()
    }
}

/// The comma-separated pieces of `s`, empty pieces included.
pub open spec fn spec_split_commas(s: Seq<char>) -> Seq<Seq<char>>
    decreases s.len(),
    via spec_split_commas_decreases
{
    match spec_first_index(s, ',') {
        None => seq![s],
        Some(i) => seq![s.take(i)] + spec_split_commas(s.skip(i + 1)),
    }
}

#[via_fn]
proof fn spec_split_commas_decreases(s: Seq<char>) {
    lemma_first_index(s, ',');
}

/// The nonempty pieces of a piece sequence, in order.
pub open spec fn spec_nonempty_pieces(pieces: Seq<Seq<char>>) -> Seq<Seq<char>> {
    pieces.filter(|p: Seq<char>| p.len() > 0)
}

/// The tag list a rule's third field denotes: its comma-separated pieces
/// with the empty ones dropped.
pub open spec fn spec_tag_list(s: Seq<char>) -> Seq<Seq<char>> {
    spec_nonempty_pieces(spec_split_commas(s))
}

/// Dropping empty pieces distributes over concatenation.
pub proof fn lemma_nonempty_pieces_concat(a: Seq<Seq<char>>, b: Seq<Seq<char>>)
    ensures
        spec_nonempty_pieces(a + b) == spec_nonempty_pieces(a) + spec_nonempty_pieces(b),
    decreases b.len(),
{
    reveal(Seq::filter);
    if b.len() == 0 {
        assert(a + b =~= a);
        assert(spec_nonempty_pieces(a) + spec_nonempty_pieces(b) =~= spec_nonempty_pieces(a));
    } else {
        lemma_nonempty_pieces_concat(a, b.drop_last());
        assert((a + b).drop_last() =~= a + b.drop_last());
        assert((a + b).last() == b.last());
        if b.last().len() > 0 {
            assert(spec_nonempty_pieces(a) + spec_nonempty_pieces(b) =~= (spec_nonempty_pieces(a)
                + spec_nonempty_pieces(b.drop_last())).push(b.last()));
        }
    }
}

/// Dropping empty pieces from a single piece keeps it iff it is nonempty.
pub proof fn lemma_nonempty_pieces_single(p: Seq<char>)
    ensures
        spec_nonempty_pieces(seq![p]) == if p.len() > 0 {
            seq![p]
        } else {
            Seq::<Seq<char>>::empty()
        },
{
    reveal_with_fuel(Seq::filter, 2);
    assert(seq![p].drop_last() =~= Seq::<Seq<char>>::empty());
    if p.len() > 0 {
        assert(spec_nonempty_pieces(seq![p]) =~= seq![p]);
    } else {
        assert(spec_nonempty_pieces(seq![p]) =~= Seq::<Seq<char>>::empty());
    }
}

/// The three colon-delimited fields of a rule string: the text before the
/// first colon, the text between the first and second, and everything after
/// the second, verbatim.
pub open spec fn spec_expr_fields(s: Seq<char>) -> Option<(Seq<char>, Seq<char>, Seq<char>)> {
    match spec_first_index(s, ':') {
        None => None,
        Some(i) => {
            let rest = s.skip(i + 1);
            match spec_first_index(rest, ':') {
                None => None,
                Some(j) => Some((s.take(i), rest.take(j), rest.skip(j + 1))),
            }
        },
    }
}

/// The operation a rule's second field names, if any.
pub open spec fn spec_operation_of(t: Seq<char>) -> Option<TagOperation> {
    if t == "add"@ {
        Some(TagOperation::Add)
    } else if t == "remove"@ {
        Some(TagOperation::Remove)
    } else if t == "update"@ {
        Some(TagOperation::Update)
    } else {
        None
    }
}

/// What a rule string parses to: its model when every check passes, nothing
/// otherwise. A rule is valid iff it has three fields, a nonempty pattern
/// that compiles as a regex, a known operation, and — for `add` and
/// `remove` — a nonempty tag list after empty segments are dropped.
pub open spec fn spec_parse_expression(s: Seq<char>) -> Option<ExprModel> {
    match spec_expr_fields(s) {
        None => None,
        Some(fields) => {
            let (pattern, op_text, tag_text) = fields;
            if pattern.len() == 0 {
                None
            } else {
                match spec_operation_of(op_text) {
                    None => None,
                    Some(operation) => {
                        let tags = spec_tag_list(tag_text);
                        if operation != TagOperation::Update && tags.len() == 0 {
                            None
                        } else if !regex_valid(pattern) {
                            None
                        } else {
                            Some(ExprModel { pattern, operation, tags })
                        }
                    },
                }
            }
        },
    }
}

/// The models of the valid rules among `xs`, in order.
pub open spec fn spec_valid_exprs(xs: Seq<Seq<char>>) -> Seq<ExprModel>
    decreases xs.len(),
{
    if xs.len() == 0 {
        Seq::empty()
    } else {
        let rest = spec_valid_exprs(xs.drop_first());
        match spec_parse_expression(xs[0]) {
            None => rest,
            Some(m) => seq![m] + rest,
        }
    }
}

/// Appending one rule string extends the valid models by its model, if it
/// has one.
pub proof fn lemma_valid_exprs_push(xs: Seq<Seq<char>>, x: Seq<char>)
    ensures
        spec_valid_exprs(xs.push(x)) == spec_valid_exprs(xs) + (match spec_parse_expression(x) {
            None => Seq::<ExprModel>::empty(),
            Some(m) => seq![m],
        }),
    decreases xs.len(),
{
    if xs.len() == 0 {
        assert(xs.push(x)[0] == x);
        assert(xs.push(x).drop_first() =~= xs);
        match spec_parse_expression(x) {
            None => {
                assert(spec_valid_exprs(xs.push(x)) =~= spec_valid_exprs(xs) + Seq::<
                    ExprModel,
                >::empty());
            },
            Some(m) => {
                assert(spec_valid_exprs(xs.push(x)) =~= spec_valid_exprs(xs) + seq![m]);
            },
        }
    } else {
        lemma_valid_exprs_push(xs.drop_first(), x);
        assert(xs.push(x).drop_first() =~= xs.drop_first().push(x));
        assert(xs.push(x)[0] == xs[0]);
        match spec_parse_expression(xs[0]) {
            None => {},
            Some(m) => {
                match spec_parse_expression(x) {
                    None => {
                        assert(seq![m] + (spec_valid_exprs(xs.drop_first()) + Seq::<
                            ExprModel,
                        >::empty()) =~= (seq![m] + spec_valid_exprs(xs.drop_first())) + Seq::<
                            ExprModel,
                        >::empty());
                    },
                    Some(mx) => {
                        assert(seq![m] + (spec_valid_exprs(xs.drop_first()) + seq![mx]) =~= (
                        seq![m] + spec_valid_exprs(xs.drop_first())) + seq![mx]);
                    },
                }
            },
        }
    }
}

/// A rule string that fails to parse contributes nothing: the valid models
/// are those of the other rules alone.
pub proof fn lemma_invalid_expr_ignored(xs: Seq<Seq<char>>, i: int)
    requires
        0 <= i < xs.len(),
        spec_parse_expression(xs[i]) is None,
    ensures
        spec_valid_exprs(xs) == spec_valid_exprs(xs.remove(i)),
    decreases xs.len(),
{
    if i == 0 {
        assert(xs.remove(0) =~= xs.drop_first());
    } else {
        lemma_invalid_expr_ignored(xs.drop_first(), i - 1);
        assert(xs.remove(i).drop_first() =~= xs.drop_first().remove(i - 1));
        assert(xs.remove(i)[0] == xs[0]);
    }
}

/// Splits a tag-list field on commas, dropping empty segments.
fn split_tags(s: &str) -> (r: Vec<String>)
    ensures
        r.deep_view() == spec_tag_list(s@),
    decreases s@.len(),
{
    let len = s.unicode_len();
    match find_char(s, ',') {
        None => {
            let mut out: Vec<String> = Vec::new();
            proof {
                lemma_nonempty_pieces_single(s@);
            }
            if len > 0 {
                let ghost before = out.deep_view();
                out.push(s.to_owned());
                proof {
                    assert(out.deep_view() =~= before.push(s@));
                    assert(out.deep_view() =~= spec_tag_list(s@));
                }
            } else {
                proof {
                    assert(out.deep_view() =~= spec_tag_list(s@));
                }
            }
            out
        },
        Some(i) => {
            proof {
                lemma_first_index(s@, ',');
            }
            let head = s.substring_char(0, i);
            let tail = s.substring_char(i + 1, len);
            proof {
                assert(head@ =~= s@.take(i as int));
                assert(tail@ =~= s@.skip(i as int + 1));
            }
            let mut rest = split_tags(tail);
            proof {
                lemma_nonempty_pieces_concat(
                    seq![s@.take(i as int)],
                    spec_split_commas(s@.skip(i as int + 1)),
                );
                lemma_nonempty_pieces_single(s@.take(i as int));
            }
            if head.unicode_len() > 0 {
                let mut out: Vec<String> = Vec::new();
                out.push(head.to_owned());
                let ghost before = out.deep_view();
                let ghost rest_tags = rest.deep_view();
                out.append(&mut rest);
                proof {
                    assert(out.deep_view() =~= before + rest_tags);
                    assert(before =~= seq![s@.take(i as int)]);
                    assert(out.deep_view() =~= spec_tag_list(s@));
                }
                out
            } else {
                proof {
                    assert(rest.deep_view() =~= spec_tag_list(s@));
                }
                rest
            }
        },
    }
}

/// Parses one rule string, yielding its compiled form exactly when the rule
/// is valid.
pub fn parse_tag_expression(s: &str) -> (r: Option<ParsedExpression>)
    ensures
        r is Some <==> spec_parse_expression(s@) is Some,
        r is Some ==> r->0@ == spec_parse_expression(s@)->0,
{
    let len = s.unicode_len();
    let first = match find_char(s, ':') {
        None => {
            return None;
        },
        Some(i) => i,
    };
    proof {
        lemma_first_index(s@, ':');
    }
    let pattern = s.substring_char(0, first);
    let rest = s.substring_char(first + 1, len);
    proof {
        assert(pattern@ =~= s@.take(first as int));
        assert(rest@ =~= s@.skip(first as int + 1));
    }
    let second = match find_char(rest, ':') {
        None => {
            return None;
        },
        Some(j) => j,
    };
    proof {
        lemma_first_index(rest@, ':');
    }
    let rest_len = rest.unicode_len();
    let op_text = rest.substring_char(0, second);
    let tag_text = rest.substring_char(second + 1, rest_len);
    proof {
        assert(op_text@ =~= rest@.take(second as int));
        assert(tag_text@ =~= rest@.skip(second as int + 1));
    }
    if pattern.unicode_len() == 0 {
        return None;
    }
    let operation = if str_eq(op_text, "add") {
        TagOperation::Add
    } else if str_eq(op_text, "remove") {
        TagOperation::Remove
    } else if str_eq(op_text, "update") {
        TagOperation::Update
    } else {
        return None;
    };
    let tags = split_tags(tag_text);
    if tags.len() == 0 && !matches!(operation, TagOperation::Update) {
        return None;
    }
    match CompiledPattern::compile(pattern) {
        None => None,
        Some(compiled) => Some(ParsedExpression { expression: compiled, operation, tags }),
    }
}

/// Parses a batch of rule strings, keeping the valid ones in order and
/// silently discarding the rest.
pub fn parse_tag_expressions(tags: Vec<String>) -> (r: Vec<ParsedExpression>)
    ensures
        r.deep_view() == spec_valid_exprs(tags.deep_view()),
{
    let mut out: Vec<ParsedExpression> = Vec::new();
    let mut i: usize = 0;
    while i < tags.len()
        invariant
            i <= tags.len(),
            out.deep_view() =~= spec_valid_exprs(tags.deep_view().take(i as int)),
        decreases tags.len() - i,
    {
        proof {
            lemma_valid_exprs_push(tags.deep_view().take(i as int), tags.deep_view()[i as int]);
            assert(tags.deep_view().take(i + 1) =~= tags.deep_view().take(i as int).push(
                tags.deep_view()[i as int],
            ));
        }
        match parse_tag_expression(tags[i].as_str()) {
            None => {
                proof {
                    assert(spec_valid_exprs(tags.deep_view().take(i + 1)) =~= spec_valid_exprs(
                        tags.deep_view().take(i as int),
                    ));
                }
            },
            Some(parsed) => {
                let ghost before = out.deep_view();
                out.push(parsed);
                proof {
                    assert(out.deep_view() =~= before.push(parsed@));
                    assert(out.deep_view() =~= spec_valid_exprs(tags.deep_view().take(i + 1)));
                }
            },
        }
        i = i + 1;
    }
    proof {
        assert(tags.deep_view().take(tags.len() as int) =~= tags.deep_view());
    }
    out
}

/// Appends each tag missing from `cur` to its end, in order.
pub open spec fn spec_add_tags(cur: Seq<Seq<char>>, to_add: Seq<Seq<char>>) -> Seq<Seq<char>>
    decreases to_add.len(),
{
    if to_add.len() == 0 {
        cur
    } else {
        let cur2 = if cur.contains(to_add[0]) {
            cur
        } else {
            cur.push(to_add[0])
        };
        spec_add_tags(cur2, to_add.drop_first())
    }
}

/// Removes every listed tag from `cur`, keeping the order of the rest.
pub open spec fn spec_remove_tags(cur: Seq<Seq<char>>, to_remove: Seq<Seq<char>>) -> Seq<
    Seq<char>,
> {
    cur.filter(|t: Seq<char>| !to_remove.contains(t))
}

/// Removing from one more tag keeps it iff it is not listed.
pub proof fn lemma_remove_tags_push(cur: Seq<Seq<char>>, to_remove: Seq<Seq<char>>, t: Seq<char>)
    ensures
        spec_remove_tags(cur.push(t), to_remove) == if to_remove.contains(t) {
            spec_remove_tags(cur, to_remove)
        } else {
            spec_remove_tags(cur, to_remove).push(t)
        },
{
    reveal(Seq::filter);
    assert(cur.push(t).drop_last() =~= cur);
    assert(cur.push(t).last() == t);
}

/// Whether `t` occurs in `tags` (character-exact comparison).
fn contains_tag(tags: &Vec<String>, t: &str) -> (r: bool)
    ensures
        r == tags.deep_view().contains(t@),
{
    let mut i: usize = 0;
    while i < tags.len()
        invariant
            i <= tags.len(),
            forall|k: int| 0 <= k < i ==> tags.deep_view()[k] != t@,
        decreases tags.len() - i,
    {
        if str_eq(tags[i].as_str(), t) {
            assert(tags.deep_view()[i as int] == t@);
            return true;
        }
        i = i + 1;
    }
    proof {
        if tags.deep_view().contains(t@) {
            let w = choose|w: int| 0 <= w < tags.deep_view().len() && tags.deep_view()[w] == t@;
            assert(tags.deep_view()[w] != t@);
        }
    }
    false
}

/// Clones a tag vector, keeping its contents.
pub(crate) fn clone_tags(tags: &Vec<String>) -> (r: Vec<String>)
    ensures
        r.deep_view() == tags.deep_view(),
{
    let r = tags.clone();
    proof {
        assert forall|k: int| 0 <= k < tags@.len() implies r.deep_view()[k] == tags.deep_view()[
            k
        ] by {
            assert(vstd::pervasive::cloned::<String>(tags[k], r[k]));
        }
        assert(r.deep_view() =~= tags.deep_view());
    }
    r
}

/// Adds the listed tags to an entry's tag list: each tag not already
/// present is appended, and a missing list is created first.
pub fn add_tags_to_test(current_tags: Option<&Vec<String>>, tags_to_add: &Vec<String>) -> (r:
    Option<Vec<String>>)
    ensures
        r matches Some(v) && v.deep_view() == spec_add_tags(
            match current_tags {
                None => Seq::<Seq<char>>::empty(),
                Some(cur) => cur.deep_view(),
            },
            tags_to_add.deep_view(),
        ),
{
    let mut new_tags: Vec<String> = match current_tags {
        Some(cur) => clone_tags(cur),
        None => Vec::new(),
    };
    let ghost start = new_tags.deep_view();
    proof {
        assert(start =~= match current_tags {
            None => Seq::<Seq<char>>::empty(),
            Some(cur) => cur.deep_view(),
        });
    }
    let mut i: usize = 0;
    while i < tags_to_add.len()
        invariant
            i <= tags_to_add.len(),
            new_tags.deep_view() =~= spec_add_tags(start, tags_to_add.deep_view().take(i as int)),
        decreases tags_to_add.len() - i,
    {
        proof {
            lemma_add_tags_concat(
                start,
                tags_to_add.deep_view().take(i as int),
                seq![tags_to_add.deep_view()[i as int]],
            );
            assert(tags_to_add.deep_view().take(i + 1) =~= tags_to_add.deep_view().take(i as int)
                + seq![tags_to_add.deep_view()[i as int]]);
            lemma_add_tags_one(new_tags.deep_view(), tags_to_add.deep_view()[i as int]);
        }
        if !contains_tag(&new_tags, tags_to_add[i].as_str()) {
            let ghost before = new_tags.deep_view();
            new_tags.push(tags_to_add[i].clone());
            proof {
                assert(vstd::pervasive::cloned::<String>(
                    tags_to_add[i as int],
                    new_tags[new_tags.len() - 1],
                ));
                assert(new_tags.deep_view() =~= before.push(tags_to_add.deep_view()[i as int]));
            }
        }
        i = i + 1;
    }
    proof {
        assert(tags_to_add.deep_view().take(tags_to_add.len() as int) =~= tags_to_add.deep_view());
    }
    Some(new_tags)
}

/// Adding a batch of tags is adding its first part, then the rest.
pub proof fn lemma_add_tags_concat(cur: Seq<Seq<char>>, ts1: Seq<Seq<char>>, ts2: Seq<Seq<char>>)
    ensures
        spec_add_tags(cur, ts1 + ts2) == spec_add_tags(spec_add_tags(cur, ts1), ts2),
    decreases ts1.len(),
{
    if ts1.len() == 0 {
        assert(ts1 + ts2 =~= ts2);
    } else {
        assert((ts1 + ts2)[0] == ts1[0]);
        assert((ts1 + ts2).drop_first() =~= ts1.drop_first() + ts2);
        let cur2 = if cur.contains(ts1[0]) {
            cur
        } else {
            cur.push(ts1[0])
        };
        lemma_add_tags_concat(cur2, ts1.drop_first(), ts2);
    }
}

/// Adding a single tag appends it iff it is missing.
pub proof fn lemma_add_tags_one(cur: Seq<Seq<char>>, t: Seq<char>)
    ensures
        spec_add_tags(cur, seq![t]) == if cur.contains(t) {
            cur
        } else {
            cur.push(t)
        },
{
    reveal_with_fuel(spec_add_tags, 2);
    assert(seq![t].drop_first() =~= Seq::<Seq<char>>::empty());
}

/// Removes the listed tags from an entry's tag list; an entry with no list
/// at all stays without one.
pub fn remove_tags_from_test(current_tags: Option<&Vec<String>>, tags_to_remove: &Vec<String>) -> (
    r: Option<Vec<String>>)
    ensures
        match current_tags {
            None => r is None,
            Some(cur) => r matches Some(v) && v.deep_view() == spec_remove_tags(
                cur.deep_view(),
                tags_to_remove.deep_view(),
            ),
        },
{
    let cur = match current_tags {
        None => {
            return None;
        },
        Some(cur) => cur,
    };
    let mut out: Vec<String> = Vec::new();
    proof {
        reveal(Seq::filter);
        assert(out.deep_view() =~= spec_remove_tags(
            cur.deep_view().take(0),
            tags_to_remove.deep_view(),
        ));
    }
    let mut i: usize = 0;
    while i < cur.len()
        invariant
            i <= cur.len(),
            out.deep_view() =~= spec_remove_tags(
                cur.deep_view().take(i as int),
                tags_to_remove.deep_view(),
            ),
        decreases cur.len() - i,
    {
        proof {
            lemma_remove_tags_push(
                cur.deep_view().take(i as int),
                tags_to_remove.deep_view(),
                cur.deep_view()[i as int],
            );
            assert(cur.deep_view().take(i + 1) =~= cur.deep_view().take(i as int).push(
                cur.deep_view()[i as int],
            ));
        }
        if !contains_tag(tags_to_remove, cur[i].as_str()) {
            let ghost before = out.deep_view();
            out.push(cur[i].clone());
            proof {
                assert(vstd::pervasive::cloned::<String>(cur[i as int], out[out.len() - 1]));
                assert(out.deep_view() =~= before.push(cur.deep_view()[i as int]));
            }
        }
        i = i + 1;
    }
    proof {
        assert(cur.deep_view().take(cur.len() as int) =~= cur.deep_view());
    }
    Some(out)
}

/// Replaces an entry's tag list wholesale with the rule's list, which may
/// be empty.
pub fn update_tags_in_test(tags_to_update: &Vec<String>) -> (r: Option<Vec<String>>)
    ensures
        r matches Some(v) && v.deep_view() == tags_to_update.deep_view(),
{
    Some(clone_tags(tags_to_update))
}

/// The tags an entry holds after one rule: unchanged unless the rule's
/// pattern matches the entry's path; on a match, the rule's operation
/// rewrites the list. `remove` leaves a missing list missing; `add` and
/// `update` create one.
pub open spec fn spec_tags_after_expr(
    tags: Option<Seq<Seq<char>>>,
    path: Seq<char>,
    x: ExprModel,
) -> Option<Seq<Seq<char>>> {
    if regex_matches(x.pattern, path) {
        match x.operation {
            TagOperation::Add => Some(
                spec_add_tags(
                    match tags {
                        None => Seq::<Seq<char>>::empty(),
                        Some(t) => t,
                    },
                    x.tags,
                ),
            ),
            TagOperation::Remove => match tags {
                None => None,
                Some(t) => Some(spec_remove_tags(t, x.tags)),
            },
            TagOperation::Update => Some(x.tags),
        }
    } else {
        tags
    }
}

/// The tags an entry holds after a batch of rules, applied in order, each
/// seeing the previous one's result.
pub open spec fn spec_tags_after_exprs(
    tags: Option<Seq<Seq<char>>>,
    path: Seq<char>,
    xs: Seq<ExprModel>,
) -> Option<Seq<Seq<char>>>
    decreases xs.len(),
{
    if xs.len() == 0 {
        tags
    } else {
        spec_tags_after_exprs(spec_tags_after_expr(tags, path, xs[0]), path, xs.drop_first())
    }
}

/// One more rule at the end applies to the result of those before it.
pub proof fn lemma_tags_after_exprs_push(
    tags: Option<Seq<Seq<char>>>,
    path: Seq<char>,
    xs: Seq<ExprModel>,
    x: ExprModel,
)
    ensures
        spec_tags_after_exprs(tags, path, xs.push(x)) == spec_tags_after_expr(
            spec_tags_after_exprs(tags, path, xs),
            path,
            x,
        ),
    decreases xs.len(),
{
    if xs.len() == 0 {
        reveal_with_fuel(spec_tags_after_exprs, 2);
        assert(xs.push(x)[0] == x);
        assert(xs.push(x).drop_first() =~= xs);
    } else {
        assert(xs.push(x)[0] == xs[0]);
        assert(xs.push(x).drop_first() =~= xs.drop_first().push(x));
        lemma_tags_after_exprs_push(
            spec_tags_after_expr(tags, path, xs[0]),
            path,
            xs.drop_first(),
            x,
        );
    }
}

/// The tag list an entry's view holds.
pub open spec fn spec_opt_tags(tags: Option<Vec<String>>) -> Option<Seq<Seq<char>>> {
    match tags {
        None => None,
        Some(v) => Some(v.deep_view()),
    }
}

/// Computes an entry's tag list after every rule in the batch.
fn retag_entry_tags(
    current: &Option<Vec<String>>,
    path: &String,
    tag_expressions: &Vec<ParsedExpression>,
) -> (r: Option<Vec<String>>)
    ensures
        spec_opt_tags(r) == spec_tags_after_exprs(
            spec_opt_tags(*current),
            path@,
            tag_expressions.deep_view(),
        ),
{
    let mut tags: Option<Vec<String>> = match current {
        None => None,
        Some(v) => Some(clone_tags(v)),
    };
    let mut i: usize = 0;
    while i < tag_expressions.len()
        invariant
            i <= tag_expressions.len(),
            spec_opt_tags(tags) == spec_tags_after_exprs(
                spec_opt_tags(*current),
                path@,
                tag_expressions.deep_view().take(i as int),
            ),
        decreases tag_expressions.len() - i,
    {
        proof {
            lemma_tags_after_exprs_push(
                spec_opt_tags(*current),
                path@,
                tag_expressions.deep_view().take(i as int),
                tag_expressions.deep_view()[i as int],
            );
            assert(tag_expressions.deep_view().take(i + 1) =~= tag_expressions
                .deep_view()
                .take(i as int)
                .push(tag_expressions.deep_view()[i as int]));
        }
        let expr = &tag_expressions[i];
        if expr.expression.is_match(path.as_str()) {
            tags = match expr.operation {
                TagOperation::Add => add_tags_to_test(tags.as_ref(), &expr.tags),
                TagOperation::Remove => remove_tags_from_test(tags.as_ref(), &expr.tags),
                TagOperation::Update => update_tags_in_test(&expr.tags),
            };
        }
        i = i + 1;
    }
    proof {
        assert(tag_expressions.deep_view().take(tag_expressions.len() as int) =~= tag_expressions
            .deep_view());
    }
    tags
}

/// An entry after a batch of rules: only its tags can change, and they
/// change exactly as the rules say.
pub open spec fn spec_entry_after_exprs(e: EntryModel, xs: Seq<ExprModel>) -> EntryModel {
    EntryModel {
        last_execution_type: e.last_execution_type,
        name: e.name,
        path: e.path,
        duration_ms: e.duration_ms,
        message: e.message,
        tags: spec_tags_after_exprs(e.tags, e.path, xs),
    }
}

/// A whole report's entries after a batch of rules.
pub open spec fn spec_apply_exprs(entries: Seq<EntryModel>, xs: Seq<ExprModel>) -> Seq<
    EntryModel,
> {
    entries.map_values(|e: EntryModel| spec_entry_after_exprs(e, xs))
}

/// Clones an optional message, keeping its presence and text.
fn clone_message(message: &Option<String>) -> (r: Option<String>)
    ensures
        r is Some <==> message is Some,
        r is Some ==> r->0@ == message->0@,
{
    match message {
        None => None,
        Some(m) => Some(m.clone()),
    }
}

/// Applies every parsed rule to every entry of the report, in place: rule
/// order is batch order, and each rule sees its predecessors' effect.
/// Nothing but entry tags changes.
pub fn apply_tags(report: &mut TestReport, tag_expressions: &Vec<ParsedExpression>)
    ensures
        final(report).version == old(report).version,
        final(report).date@ == old(report).date@,
        final(report)@.tests == spec_apply_exprs(old(report)@.tests, tag_expressions.deep_view()),
{
    let mut new_tests: Vec<TestReportTest> = Vec::new();
    let mut i: usize = 0;
    while i < report.tests.len()
        invariant
            i <= report.tests.len(),
            report == old(report),
            new_tests.deep_view() =~= spec_apply_exprs(
                old(report)@.tests.take(i as int),
                tag_expressions.deep_view(),
            ),
        decreases report.tests.len() - i,
    {
        let entry = &report.tests[i];
        let new_tags = retag_entry_tags(&entry.tags, &entry.path, tag_expressions);
        let new_entry = TestReportTest {
            last_execution_type: entry.last_execution_type,
            name: entry.name.clone(),
            path: entry.path.clone(),
            duration_ms: entry.duration_ms,
            message: clone_message(&entry.message),
            tags: new_tags,
        };
        proof {
            assert(new_entry@ == spec_entry_after_exprs(
                old(report)@.tests[i as int],
                tag_expressions.deep_view(),
            ));
            assert(old(report)@.tests.take(i + 1) =~= old(report)@.tests.take(i as int).push(
                old(report)@.tests[i as int],
            ));
        }
        let ghost before = new_tests.deep_view();
        new_tests.push(new_entry);
        proof {
            assert(new_tests.deep_view() =~= before.push(new_entry@));
            assert(new_tests.deep_view() =~= spec_apply_exprs(
                old(report)@.tests.take(i + 1),
                tag_expressions.deep_view(),
            ));
        }
        i = i + 1;
    }
    proof {
        assert(old(report)@.tests.take(old(report)@.tests.len() as int) =~= old(report)@.tests);
    }
    report.tests = new_tests;
    proof {
        assert(final(report)@.tests =~= spec_apply_exprs(
            old(report)@.tests,
            tag_expressions.deep_view(),
        ));
    }
}

/// Parses the rule strings and applies the valid ones to the report, in
/// place. Invalid rules are silently discarded and mutate nothing.
pub fn tag_command(report: &mut TestReport, tags: Vec<String>)
    ensures
        final(report).version == old(report).version,
        final(report).date@ == old(report).date@,
        final(report)@.tests == spec_apply_exprs(
            old(report)@.tests,
            spec_valid_exprs(tags.deep_view()),
        ),
{
    let tag_expressions = parse_tag_expressions(tags);
    apply_tags(report, &tag_expressions);
}

/// Adding the same tags twice is adding them once: a second application
/// finds every tag already present and appends nothing.
pub proof fn lemma_add_tags_idempotent(cur: Seq<Seq<char>>, to_add: Seq<Seq<char>>)
    ensures
        spec_add_tags(spec_add_tags(cur, to_add), to_add) == spec_add_tags(cur, to_add),
{
    let once = spec_add_tags(cur, to_add);
    assert forall|k: int| 0 <= k < to_add.len() implies once.contains(to_add[k]) by {
        lemma_add_tags_adds(cur, to_add, k);
    }
    lemma_add_tags_all_present(once, to_add);
}

/// A tag already present survives any batch of additions.
pub proof fn lemma_add_tags_preserves(cur: Seq<Seq<char>>, to_add: Seq<Seq<char>>, t: Seq<char>)
    requires
        cur.contains(t),
    ensures
        spec_add_tags(cur, to_add).contains(t),
    decreases to_add.len(),
{
    if to_add.len() > 0 {
        let cur2 = if cur.contains(to_add[0]) {
            cur
        } else {
            cur.push(to_add[0])
        };
        if !cur.contains(to_add[0]) {
            let w = choose|w: int| 0 <= w < cur.len() && cur[w] == t;
            assert(cur.push(to_add[0])[w] == t);
        }
        lemma_add_tags_preserves(cur2, to_add.drop_first(), t);
    }
}

/// Every added tag is present afterwards.
pub proof fn lemma_add_tags_adds(cur: Seq<Seq<char>>, to_add: Seq<Seq<char>>, k: int)
    requires
        0 <= k < to_add.len(),
    ensures
        spec_add_tags(cur, to_add).contains(to_add[k]),
    decreases to_add.len(),
{
    let cur2 = if cur.contains(to_add[0]) {
        cur
    } else {
        cur.push(to_add[0])
    };
    if k == 0 {
        if !cur.contains(to_add[0]) {
            assert(cur.push(to_add[0])[cur.len() as int] == to_add[0]);
        }
        lemma_add_tags_preserves(cur2, to_add.drop_first(), to_add[0]);
    } else {
        assert(to_add.drop_first()[k - 1] == to_add[k]);
        lemma_add_tags_adds(cur2, to_add.drop_first(), k - 1);
    }
}

/// Adding tags that are all already present changes nothing.
pub proof fn lemma_add_tags_all_present(cur: Seq<Seq<char>>, to_add: Seq<Seq<char>>)
    requires
        forall|k: int| 0 <= k < to_add.len() ==> cur.contains(to_add[k]),
    ensures
        spec_add_tags(cur, to_add) == cur,
    decreases to_add.len(),
{
    if to_add.len() > 0 {
        assert(cur.contains(to_add[0]));
        assert forall|k: int| 0 <= k < to_add.drop_first().len() implies cur.contains(
            to_add.drop_first()[k],
        ) by {
            assert(to_add.drop_first()[k] == to_add[k + 1]);
        }
        lemma_add_tags_all_present(cur, to_add.drop_first());
    }
}

/// Removing tags that are not in the list is a no-op, and a `remove` rule
/// never creates a tag list: an entry without one keeps none.
pub proof fn lemma_remove_absent_noop(
    cur: Seq<Seq<char>>,
    to_remove: Seq<Seq<char>>,
    path: Seq<char>,
    x: ExprModel,
)
    requires
        forall|k: int| 0 <= k < cur.len() ==> !to_remove.contains(cur[k]),
        x.operation is Remove,
    ensures
        spec_remove_tags(cur, to_remove) == cur,
        spec_tags_after_expr(None, path, x) is None,
    decreases cur.len(),
{
    reveal(Seq::filter);
    if cur.len() > 0 {
        assert(!to_remove.contains(cur.last()));
        assert forall|k: int| 0 <= k < cur.drop_last().len() implies !to_remove.contains(
            cur.drop_last()[k],
        ) by {
            assert(cur.drop_last()[k] == cur[k]);
        }
        lemma_remove_absent_noop(cur.drop_last(), to_remove, path, x);
        assert(spec_remove_tags(cur, to_remove) =~= cur);
    } else {
        assert(spec_remove_tags(cur, to_remove) =~= cur);
    }
}

/// An `update` rule with an empty tag list leaves a present-but-empty list
/// on every matching entry — never a missing one.
pub proof fn lemma_update_empty_keeps_list(
    tags: Option<Seq<Seq<char>>>,
    path: Seq<char>,
    x: ExprModel,
)
    requires
        x.operation is Update,
        x.tags.len() == 0,
        regex_matches(x.pattern, path),
    ensures
        spec_tags_after_expr(tags, path, x) == Some(Seq::<Seq<char>>::empty()),
        spec_tags_after_expr(tags, path, x) is Some,
{
    assert(x.tags =~= Seq::<Seq<char>>::empty());
}

} // verus!
