//! The grammar of the repetition engine and its two ways of expanding a body.

use vstd::prelude::*;

use crate::diag::{reported, Diagnostic, ErrorKind, Report};
use crate::lit::{
    decimal_text, ident_accepted, integer_value, is_identifier, lit_int_value, unsuffixed_text,
};
use crate::text::{join2, join3, same_text};
use crate::token::{
    clone_stream, clone_tree, lemma_concat_view, lemma_group_view, lemma_push_view, span_of,
    token_span, Delimiter, Span, Tok, TokenTree,
};

verus! {

broadcast use vstd::std_specs::vec::axiom_vec_index_decreases;

/// One invocation, parsed: the induction variable, the half-open range
/// `from..to`, and the body that is expanded for every index in it.
#[derive(Debug)]
pub struct SeqParser {
    pub n_ident: String,
    pub from: u32,
    pub to: u32,
    pub body: Vec<TokenTree>,
}

/// What parsing an invocation comes to.
pub ghost enum ParseOutcome {
    Done { var: Seq<char>, from: u32, to: u32, body: Seq<Tok> },
    Fail(Report),
}

/// Whether `r` is what parsing hands back for `outcome`.
pub open spec fn parsed_as(r: Result<SeqParser, Diagnostic>, outcome: ParseOutcome) -> bool {
    match outcome {
        ParseOutcome::Done { var, from, to, body } => {
            &&& r is Ok
            &&& r.unwrap().n_ident@ == var
            &&& r.unwrap().from == from
            &&& r.unwrap().to == to
            &&& r.unwrap().body.deep_view() == body
        },
        ParseOutcome::Fail(report) => reported(r.err(), Some(report)),
    }
}

/// What the grammar expects at each of its seven places.
pub open spec fn expected_at(place: int) -> Seq<char> {
    if place == 0 {
        "expected identifier"@
    } else if place == 1 {
        "expected `in`"@
    } else if place == 2 || place == 5 {
        "expected integer literal"@
    } else if place == 3 || place == 4 {
        "expected `..`"@
    } else {
        "expected curly braces"@
    }
}

/// Whether the token at one of the seven places has the kind that the grammar
/// asks for there: a word, the word `in`, a literal, a joint `.`, a `.`, a
/// literal, a group in braces.
pub open spec fn fits_place(t: Tok, place: int) -> bool {
    if place == 0 {
        t is Ident
    } else if place == 1 {
        t.is_word("in"@)
    } else if place == 2 || place == 5 {
        t is Literal
    } else if place == 3 {
        t matches Tok::Punct { ch, joint, .. } && ch == '.' && joint
    } else if place == 4 {
        t.is_punct('.')
    } else {
        t matches Tok::Group { delimiter, .. } && delimiter == Delimiter::Brace
    }
}

/// The first of the seven places, from `place` on, that the input does not
/// fit; 7 where it fits them all.
pub open spec fn first_misfit(ts: Seq<Tok>, place: int) -> int
    decreases 7 - place,
{
    if place >= 7 {
        7
    } else if place < ts.len() && fits_place(ts[place], place) {
        first_misfit(ts, place + 1)
    } else {
        place
    }
}

/// The outcome of parsing `ts` as `N in A..B { body }`.
///
/// The kinds of the first seven tokens are checked from left to right, then
/// that nothing follows the body, then that `N` is an identifier, then that
/// `A` and `B` are integers that fit in 32 bits. A failure is anchored at the
/// offending token, or at the call site where the input ends too early.
pub open spec fn parse_outcome(ts: Seq<Tok>) -> ParseOutcome {
    outcome_given(
        ts,
        ident_accepted(ts[0]->Ident_name),
        lit_int_value(ts[2]->Literal_text),
        lit_int_value(ts[5]->Literal_text),
    )
}

/// What is wrong with the shape of `ts`, if anything: the first of the seven
/// places that it does not fit, or a token after the seventh.
pub open spec fn shape_failure(ts: Seq<Tok>) -> Option<Report> {
    let bad = first_misfit(ts, 0);
    if bad < 7 {
        if bad < ts.len() {
            Some(
                Report {
                    kind: ErrorKind::StructuralMismatch,
                    span: span_of(ts[bad]),
                    message: expected_at(bad),
                },
            )
        } else {
            Some(
                Report {
                    kind: ErrorKind::StructuralMismatch,
                    span: Span::call_site(),
                    message: "unexpected end of input, "@ + expected_at(bad),
                },
            )
        }
    } else if ts.len() > 7 {
        Some(
            Report {
                kind: ErrorKind::StructuralMismatch,
                span: span_of(ts[7]),
                message: "unexpected token"@,
            },
        )
    } else {
        None
    }
}

/// The outcome of parsing `ts`, given what the lexer says of its variable
/// and of its two bounds.
pub open spec fn outcome_given(
    ts: Seq<Tok>,
    accepted: bool,
    from: Option<u32>,
    to: Option<u32>,
) -> ParseOutcome {
    match shape_failure(ts) {
        Some(report) => ParseOutcome::Fail(report),
        None => if !accepted {
            ParseOutcome::Fail(
                Report {
                    kind: ErrorKind::StructuralMismatch,
                    span: span_of(ts[0]),
                    message: "expected identifier, found keyword `"@ + (ts[0]->Ident_name) + "`"@,
                },
            )
        } else if from is None {
            ParseOutcome::Fail(
                Report {
                    kind: ErrorKind::StructuralMismatch,
                    span: span_of(ts[2]),
                    message: "expected integer literal"@,
                },
            )
        } else if to is None {
            ParseOutcome::Fail(
                Report {
                    kind: ErrorKind::StructuralMismatch,
                    span: span_of(ts[5]),
                    message: "expected integer literal"@,
                },
            )
        } else {
            ParseOutcome::Done {
                var: ts[0]->Ident_name,
                from: from.unwrap(),
                to: to.unwrap(),
                body: ts[6]->Group_stream,
            }
        },
    }
}

/// Whether `prefix ~ var` starts at index `i`: a word, the paste character,
/// and the induction variable.
pub open spec fn paste_at(ts: Seq<Tok>, i: int, var: Seq<char>) -> bool {
    &&& 0 <= i
    &&& i + 2 < ts.len()
    &&& ts[i] is Ident
    &&& ts[i + 1].is_punct('~')
    &&& ts[i + 2].is_word(var)
}

/// The tokens from index `i` on, expanded for the index `n`: a group is
/// expanded inside, `prefix ~ var` becomes the one word `prefix` followed by
/// the digits of `n`, a lone `var` becomes the literal `n`, and every other
/// token stays. A replacement keeps the location of the token it replaces.
pub open spec fn expand_normal_from(ts: Seq<Tok>, i: int, var: Seq<char>, n: u32) -> Seq<Tok>
    decreases ts, ts.len() - i,
{
    if i < 0 || i >= ts.len() {
        Seq::empty()
    } else {
        match ts[i] {
            Tok::Group { delimiter, stream, span } => seq![
                Tok::Group { delimiter, stream: expand_normal_from(stream, 0, var, n), span },
            ] + expand_normal_from(ts, i + 1, var, n),
            Tok::Ident { name, span } => if paste_at(ts, i, var) {
                seq![Tok::Ident { name: name + decimal_text(n as nat), span }]
                    + expand_normal_from(ts, i + 3, var, n)
            } else if name == var {
                seq![Tok::Literal { text: decimal_text(n as nat), span }] + expand_normal_from(
                    ts,
                    i + 1,
                    var,
                    n,
                )
            } else {
                seq![ts[i]] + expand_normal_from(ts, i + 1, var, n)
            },
            _ => seq![ts[i]] + expand_normal_from(ts, i + 1, var, n),
        }
    }
}

/// Whether a repetition marker starts at index `i`: `#`, a group in
/// parentheses, `*`.
pub open spec fn marker_at(ts: Seq<Tok>, i: int) -> bool {
    &&& 0 <= i
    &&& i + 2 < ts.len()
    &&& ts[i].is_punct('#')
    &&& ts[i + 1] matches Tok::Group { delimiter, .. } && delimiter == Delimiter::Parenthesis
    &&& ts[i + 2].is_punct('*')
}

/// Whether a repetition marker stands at or after index `i`, at any depth.
pub open spec fn has_marker_from(ts: Seq<Tok>, i: int) -> bool
    decreases ts, ts.len() - i,
{
    if i < 0 || i >= ts.len() {
        false
    } else if marker_at(ts, i) {
        true
    } else {
        match ts[i] {
            Tok::Group { stream, .. } => has_marker_from(stream, 0) || has_marker_from(ts, i + 1),
            _ => has_marker_from(ts, i + 1),
        }
    }
}

/// The expansions of `body` for the indices `from`, `from + 1`, .. `to - 1`,
/// one after the other; empty where `from >= to`.
pub open spec fn repeat_range(body: Seq<Tok>, var: Seq<char>, from: int, to: int) -> Seq<Tok>
    decreases to - from,
{
    if from >= to {
        Seq::empty()
    } else {
        repeat_range(body, var, from, to - 1) + expand_normal_from(body, 0, var, (to - 1) as u32)
    }
}

/// The tokens from index `i` on with every marker replaced by the expansions
/// of what it encloses, for each index of `from..to` in turn. A group that
/// holds a marker is rewritten inside; every other token stays as it is.
pub open spec fn expand_repeat_from(
    ts: Seq<Tok>,
    i: int,
    var: Seq<char>,
    from: u32,
    to: u32,
) -> Seq<Tok>
    decreases ts, ts.len() - i,
{
    if i < 0 || i >= ts.len() {
        Seq::empty()
    } else if marker_at(ts, i) {
        repeat_range(ts[i + 1]->Group_stream, var, from as int, to as int) + expand_repeat_from(
            ts,
            i + 3,
            var,
            from,
            to,
        )
    } else {
        match ts[i] {
            Tok::Group { delimiter, stream, span } => if has_marker_from(stream, 0) {
                seq![
                    Tok::Group {
                        delimiter,
                        stream: expand_repeat_from(stream, 0, var, from, to),
                        span,
                    },
                ] + expand_repeat_from(ts, i + 1, var, from, to)
            } else {
                seq![ts[i]] + expand_repeat_from(ts, i + 1, var, from, to)
            },
            _ => seq![ts[i]] + expand_repeat_from(ts, i + 1, var, from, to),
        }
    }
}

/// Whether a token has the kind that the grammar asks for at `place`.
fn fits(t: &TokenTree, place: usize) -> (r: bool)
    requires
        place < 7,
    ensures
        r == fits_place(t.deep_view(), place as int),
{
    match t {
        TokenTree::Group { delimiter, .. } => place == 6 && *delimiter == Delimiter::Brace,
        TokenTree::Ident { name, .. } => place == 0 || (place == 1 && same_text(
            name.as_str(),
            "in",
        )),
        TokenTree::Punct { ch, joint, .. } => *ch == '.' && ((place == 3 && *joint) || place == 4),
        TokenTree::Literal { .. } => place == 2 || place == 5,
    }
}

/// What the grammar expects at `place`.
fn expected(place: usize) -> (r: &'static str)
    requires
        place < 7,
    ensures
        r@ == expected_at(place as int),
{
    if place == 0 {
        "expected identifier"
    } else if place == 1 {
        "expected `in`"
    } else if place == 2 || place == 5 {
        "expected integer literal"
    } else if place == 3 || place == 4 {
        "expected `..`"
    } else {
        "expected curly braces"
    }
}

impl SeqParser {
    /// Checks the shape of an invocation: seven tokens of the right kinds
    /// and nothing after them.
    pub fn check_shape(input: &Vec<TokenTree>) -> (r: Result<(), Diagnostic>)
        ensures
            reported(r.err(), shape_failure(input.deep_view())),
            r is Ok ==> first_misfit(input.deep_view(), 0) == 7 && input.len() == 7,
    {
        let ghost tv = input.deep_view();
        let mut place: usize = 0;
        while place < 7
            invariant
                place <= 7,
                place <= input.len(),
                tv == input.deep_view(),
                first_misfit(tv, 0) == first_misfit(tv, place as int),
            decreases 7 - place,
        {
            if place >= input.len() {
                let message = join2("unexpected end of input, ", expected(place));
                return Err(
                    Diagnostic::new(ErrorKind::StructuralMismatch, Span::at_call_site(), message),
                );
            }
            if !fits(&input[place], place) {
                let message = String::from_str(expected(place));
                return Err(
                    Diagnostic::new(
                        ErrorKind::StructuralMismatch,
                        token_span(&input[place]),
                        message,
                    ),
                );
            }
            place += 1;
        }
        if input.len() > 7 {
            let message = String::from_str("unexpected token");
            return Err(
                Diagnostic::new(ErrorKind::StructuralMismatch, token_span(&input[7]), message),
            );
        }
        Ok(())
    }

    /// Parses an invocation, given what the lexer says of its variable and
    /// of its two bounds.
    pub fn assemble(
        input: &Vec<TokenTree>,
        accepted: bool,
        from: Option<u32>,
        to: Option<u32>,
    ) -> (r: Result<SeqParser, Diagnostic>)
        ensures
            parsed_as(r, outcome_given(input.deep_view(), accepted, from, to)),
    {
        let ghost tv = input.deep_view();
        match SeqParser::check_shape(input) {
            Err(e) => {
                return Err(e);
            },
            Ok(()) => {},
        }
        proof {
            lemma_fits_all(tv);
        }
        if !accepted {
            match &input[0] {
                TokenTree::Ident { name, span } => {
                    let message = join3("expected identifier, found keyword `", name.as_str(), "`");
                    Err(Diagnostic::new(ErrorKind::StructuralMismatch, *span, message))
                },
                _ => unreached(),
            }
        } else if from.is_none() {
            let message = String::from_str("expected integer literal");
            Err(Diagnostic::new(ErrorKind::StructuralMismatch, token_span(&input[2]), message))
        } else if to.is_none() {
            let message = String::from_str("expected integer literal");
            Err(Diagnostic::new(ErrorKind::StructuralMismatch, token_span(&input[5]), message))
        } else {
            match (&input[0], &input[6]) {
                (TokenTree::Ident { name, .. }, TokenTree::Group { delimiter, stream, span }) => {
                    proof {
                        lemma_group_view(*delimiter, *stream, *span);
                    }
                    Ok(
                        SeqParser {
                            n_ident: name.clone(),
                            from: from.unwrap(),
                            to: to.unwrap(),
                            body: clone_stream(stream),
                        },
                    )
                },
                _ => unreached(),
            }
        }
    }

    /// Parses an invocation of the form `N in A..B { body }`.
    pub fn parse(input: &Vec<TokenTree>) -> (r: Result<SeqParser, Diagnostic>)
        ensures
            parsed_as(r, parse_outcome(input.deep_view())),
    {
        match SeqParser::check_shape(input) {
            Err(e) => {
                return Err(e);
            },
            Ok(()) => {},
        }
        proof {
            lemma_fits_all(input.deep_view());
        }
        let accepted = match &input[0] {
            TokenTree::Ident { name, .. } => is_identifier(name.as_str()),
            _ => false,
        };
        let from = match &input[2] {
            TokenTree::Literal { text, .. } => integer_value(text.as_str()),
            _ => None,
        };
        let to = match &input[5] {
            TokenTree::Literal { text, .. } => integer_value(text.as_str()),
            _ => None,
        };
        SeqParser::assemble(input, accepted, from, to)
    }
}

/// An input without a misfit fits every one of the seven places.
proof fn lemma_fits_all(ts: Seq<Tok>)
    requires
        first_misfit(ts, 0) == 7,
    ensures
        ts.len() >= 7,
        forall|place: int| 0 <= place < 7 ==> fits_place(ts[place], place),
{
    reveal_with_fuel(first_misfit, 8);
}


/// Whether `prefix ~ var` starts at index `idx` of `ts`.
fn paste_starts(ts: &Vec<TokenTree>, idx: usize, var: &String) -> (r: bool)
    requires
        idx < ts.len(),
    ensures
        r == paste_at(ts.deep_view(), idx as int, var@),
{
    if ts.len() - idx < 3 {
        return false;
    }
    match (&ts[idx], &ts[idx + 1], &ts[idx + 2]) {
        (
            TokenTree::Ident { .. },
            TokenTree::Punct { ch, .. },
            TokenTree::Ident { name, .. },
        ) => *ch == '~' && *name == *var,
        _ => false,
    }
}

/// Whether a repetition marker starts at index `idx` of `ts`.
fn marker_starts(ts: &Vec<TokenTree>, idx: usize) -> (r: bool)
    requires
        idx < ts.len(),
    ensures
        r == marker_at(ts.deep_view(), idx as int),
{
    if ts.len() - idx < 3 {
        return false;
    }
    match (&ts[idx], &ts[idx + 1], &ts[idx + 2]) {
        (
            TokenTree::Punct { ch: first, .. },
            TokenTree::Group { delimiter, .. },
            TokenTree::Punct { ch: last, .. },
        ) => *first == '#' && *delimiter == Delimiter::Parenthesis && *last == '*',
        _ => false,
    }
}

impl SeqParser {
    /// Expands `ts` for the index `n`.
    pub fn expand_normal(&self, ts: &Vec<TokenTree>, n: u32) -> (r: Vec<TokenTree>)
        ensures
            r.deep_view() == expand_normal_from(ts.deep_view(), 0, self.n_ident@, n),
        decreases ts,
    {
        let ghost tv = ts.deep_view();
        let ghost var = self.n_ident@;
        let mut result: Vec<TokenTree> = Vec::new();
        let mut idx: usize = 0;
        assert(result.deep_view() =~= Seq::<Tok>::empty());
        while idx < ts.len()
            invariant
                idx <= ts.len(),
                tv == ts.deep_view(),
                var == self.n_ident@,
                result.deep_view() + expand_normal_from(tv, idx as int, var, n)
                    == expand_normal_from(tv, 0, var, n),
            decreases ts.len() - idx,
        {
            let ghost before = result.deep_view();
            let ghost rest = expand_normal_from(tv, idx as int, var, n);
            let pasted = paste_starts(ts, idx, &self.n_ident);
            let step: usize;
            let token: TokenTree;
            match &ts[idx] {
                TokenTree::Group { delimiter, stream, span } => {
                    let inner = self.expand_normal(stream, n);
                    proof {
                        lemma_group_view(*delimiter, *stream, *span);
                        lemma_group_view(*delimiter, inner, *span);
                    }
                    token = TokenTree::Group { delimiter: *delimiter, stream: inner, span: *span };
                    step = 1;
                },
                TokenTree::Ident { name, span } => {
                    if pasted {
                        let digits = unsuffixed_text(n);
                        token =
                        TokenTree::Ident { name: join2(name.as_str(), digits.as_str()), span: *span };
                        step = 3;
                    } else if *name == self.n_ident {
                        token = TokenTree::Literal { text: unsuffixed_text(n), span: *span };
                        step = 1;
                    } else {
                        token = clone_tree(&ts[idx]);
                        step = 1;
                    }
                },
                _ => {
                    token = clone_tree(&ts[idx]);
                    step = 1;
                },
            }
            proof {
                lemma_push_view(result@, token);
                assert(rest == seq![token.deep_view()] + expand_normal_from(
                    tv,
                    idx + step,
                    var,
                    n,
                ));
                assert(before.push(token.deep_view()) + expand_normal_from(tv, idx + step, var, n)
                    =~= before + rest);
            }
            result.push(token);
            idx += step;
        }
        assert(result.deep_view() + Seq::<Tok>::empty() =~= result.deep_view());
        result
    }

    /// Appends to `out` the expansions of `body` for each index of
    /// `from..to`, in ascending order.
    pub fn expand_range(&self, body: &Vec<TokenTree>, from: u32, to: u32, out: &mut Vec<TokenTree>)
        ensures
            final(out).deep_view() == old(out).deep_view() + repeat_range(
                body.deep_view(),
                self.n_ident@,
                from as int,
                to as int,
            ),
    {
        let ghost before = out.deep_view();
        let ghost inner = body.deep_view();
        let ghost var = self.n_ident@;
        let mut i: u32 = from;
        assert(before + repeat_range(inner, var, from as int, i as int) =~= before);
        while i < to
            invariant
                from <= i,
                i == from || i <= to,
                inner == body.deep_view(),
                var == self.n_ident@,
                out.deep_view() == before + repeat_range(inner, var, from as int, i as int),
            decreases to - i,
        {
            let mut once = self.expand_normal(body, i);
            proof {
                lemma_concat_view(out@, once@);
                assert(before + repeat_range(inner, var, from as int, i + 1) =~= before
                    + repeat_range(inner, var, from as int, i as int) + once.deep_view());
            }
            out.append(&mut once);
            i += 1;
        }
    }

    /// Rewrites `ts` with every marker replaced by the expansions of what it
    /// encloses, for each index of `from..to`; `None` where `ts` holds no
    /// marker at any depth.
    pub fn expand_repeat(&self, ts: &Vec<TokenTree>, from: u32, to: u32) -> (r: Option<
        Vec<TokenTree>,
    >)
        ensures
            r is Some <==> has_marker_from(ts.deep_view(), 0),
            r is Some ==> r.unwrap().deep_view() == expand_repeat_from(
                ts.deep_view(),
                0,
                self.n_ident@,
                from,
                to,
            ),
        decreases ts,
    {
        let ghost tv = ts.deep_view();
        let ghost var = self.n_ident@;
        let mut result: Vec<TokenTree> = Vec::new();
        let mut is_found = false;
        let mut idx: usize = 0;
        assert(result.deep_view() =~= Seq::<Tok>::empty());
        while idx < ts.len()
            invariant
                idx <= ts.len(),
                tv == ts.deep_view(),
                var == self.n_ident@,
                has_marker_from(tv, 0) == (is_found || has_marker_from(tv, idx as int)),
                result.deep_view() + expand_repeat_from(tv, idx as int, var, from, to)
                    == expand_repeat_from(tv, 0, var, from, to),
            decreases ts.len() - idx,
        {
            let ghost before = result.deep_view();
            let ghost rest = expand_repeat_from(tv, idx as int, var, from, to);
            if marker_starts(ts, idx) {
                match &ts[idx + 1] {
                    TokenTree::Group { delimiter, stream, span } => {
                        proof {
                            lemma_group_view(*delimiter, *stream, *span);
                        }
                        self.expand_range(stream, from, to, &mut result);
                        assert(before + repeat_range(
                            stream.deep_view(),
                            var,
                            from as int,
                            to as int,
                        ) + expand_repeat_from(tv, idx + 3, var, from, to) =~= before + rest);
                    },
                    _ => unreached(),
                }
                is_found = true;
                idx += 3;
            } else {
                let token: TokenTree;
                match &ts[idx] {
                    TokenTree::Group { delimiter, stream, span } => {
                        proof {
                            lemma_group_view(*delimiter, *stream, *span);
                        }
                        match self.expand_repeat(stream, from, to) {
                            Some(inner) => {
                                proof {
                                    lemma_group_view(*delimiter, inner, *span);
                                }
                                token =
                                TokenTree::Group {
                                    delimiter: *delimiter,
                                    stream: inner,
                                    span: *span,
                                };
                                is_found = true;
                            },
                            None => {
                                token = clone_tree(&ts[idx]);
                            },
                        }
                    },
                    _ => {
                        token = clone_tree(&ts[idx]);
                    },
                }
                proof {
                    lemma_push_view(result@, token);
                    assert(rest == seq![token.deep_view()] + expand_repeat_from(
                        tv,
                        idx + 1,
                        var,
                        from,
                        to,
                    ));
                    assert(before.push(token.deep_view()) + expand_repeat_from(
                        tv,
                        idx + 1,
                        var,
                        from,
                        to,
                    ) =~= before + rest);
                }
                result.push(token);
                idx += 1;
            }
        }
        assert(result.deep_view() + Seq::<Tok>::empty() =~= result.deep_view());
        if is_found {
            Some(result)
        } else {
            None
        }
    }
}

/// Where no marker stands at or after index `i`, rewriting the markers
/// leaves the tokens from `i` on as they are.
pub proof fn law_without_marker_nothing_changes(
    ts: Seq<Tok>,
    i: int,
    var: Seq<char>,
    from: u32,
    to: u32,
)
    requires
        0 <= i <= ts.len(),
        !has_marker_from(ts, i),
    ensures
        expand_repeat_from(ts, i, var, from, to) == ts.skip(i),
    decreases ts.len() - i,
{
    if i < ts.len() {
        law_without_marker_nothing_changes(ts, i + 1, var, from, to);
        assert(seq![ts[i]] + ts.skip(i + 1) =~= ts.skip(i));
    } else {
        assert(ts.skip(i) =~= Seq::<Tok>::empty());
    }
}

/// An empty range repeats nothing: in normal mode the output is empty.
pub proof fn law_empty_range_expands_to_nothing(body: Seq<Tok>, var: Seq<char>, from: int, to: int)
    requires
        from >= to,
    ensures
        repeat_range(body, var, from, to) == Seq::<Tok>::empty(),
{
}

/// A range repeats its body once for each index, in ascending order: the
/// expansion for the first index comes first, then those of the rest.
pub proof fn law_range_starts_with_its_first_index(
    body: Seq<Tok>,
    var: Seq<char>,
    from: int,
    to: int,
)
    requires
        0 <= from < to <= u32::MAX,
    ensures
        repeat_range(body, var, from, to) == expand_normal_from(body, 0, var, from as u32)
            + repeat_range(body, var, from + 1, to),
    decreases to - from,
{
    if from + 1 < to {
        law_range_starts_with_its_first_index(body, var, from, to - 1);
        let first = expand_normal_from(body, 0, var, from as u32);
        let middle = repeat_range(body, var, from + 1, to - 1);
        let last = expand_normal_from(body, 0, var, (to - 1) as u32);
        assert(first + middle + last =~= first + (middle + last));
    } else {
        let first = expand_normal_from(body, 0, var, from as u32);
        assert(repeat_range(body, var, from, to - 1) =~= Seq::<Tok>::empty());
        assert(repeat_range(body, var, from + 1, to) =~= Seq::<Tok>::empty());
        assert(Seq::<Tok>::empty() + first =~= first + Seq::<Tok>::empty());
    }
}

} // verus!
