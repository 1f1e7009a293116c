//! Token trees: the currency of the engines that rewrite raw syntax.

use vstd::prelude::*;

verus! {

broadcast use vstd::std_specs::vec::axiom_vec_index_decreases;

/// A handle for a source location. The caller chooses the handles and maps
/// them back to real locations; the engines only carry them along.
#[derive(Clone, Copy, Debug, PartialEq, Eq, Structural)]
pub struct Span {
    pub id: u64,
}

impl Span {
    /// The handle that stands for the place of the invocation itself.
    pub open spec fn call_site() -> Span {
        Span { id: 0 }
    }

    /// The handle that stands for the place of the invocation itself.
    #[verifier::when_used_as_spec(call_site)]
    pub fn at_call_site() -> (r: Span)
        ensures
            r == Span::call_site(),
    {
        Span { id: 0 }
    }
}

/// How a group of tokens is enclosed.
#[derive(Clone, Copy, Debug, PartialEq, Eq, Structural)]
pub enum Delimiter {
    Parenthesis,
    Brace,
    Bracket,
    /// No visible delimiter: the group only keeps its tokens together.
    Invisible,
}

/// One node of a token tree.
#[derive(Debug)]
pub enum TokenTree {
    /// A delimited sequence of token trees.
    Group { delimiter: Delimiter, stream: Vec<TokenTree>, span: Span },
    /// A word: an identifier or a keyword.
    Ident { name: String, span: Span },
    /// One punctuation character; `joint` holds when another punctuation
    /// character follows it immediately.
    Punct { ch: char, joint: bool, span: Span },
    /// A literal, by its source text.
    Literal { text: String, span: Span },
}

/// The mathematical value of a token tree.
pub ghost enum Tok {
    Group { delimiter: Delimiter, stream: Seq<Tok>, span: Span },
    Ident { name: Seq<char>, span: Span },
    Punct { ch: char, joint: bool, span: Span },
    Literal { text: Seq<char>, span: Span },
}

impl DeepView for TokenTree {
    type V = Tok;

    open spec fn deep_view(&self) -> Tok
        decreases self,
    {
        match self {
            TokenTree::Group { delimiter, stream, span } => Tok::Group {
                delimiter: *delimiter,
                stream: Seq::new(
                    stream@.len(),
                    |i: int|
                        if 0 <= i < stream@.len() {
                            stream@[i].deep_view()
                        } else {
                            arbitrary()
                        },
                ),
                span: *span,
            },
            TokenTree::Ident { name, span } => Tok::Ident { name: name@, span: *span },
            TokenTree::Punct { ch, joint, span } => Tok::Punct {
                ch: *ch,
                joint: *joint,
                span: *span,
            },
            TokenTree::Literal { text, span } => Tok::Literal { text: text@, span: *span },
        }
    }
}

impl Tok {
    /// Whether the token is the punctuation character `c`.
    pub open spec fn is_punct(self, c: char) -> bool {
        self matches Tok::Punct { ch, .. } && ch == c
    }

    /// Whether the token is the word `word`.
    pub open spec fn is_word(self, word: Seq<char>) -> bool {
        self matches Tok::Ident { name, .. } && name == word
    }
}

/// The value of a group is the group of the values of its tokens.
pub proof fn lemma_group_view(delimiter: Delimiter, stream: Vec<TokenTree>, span: Span)
    ensures
        (TokenTree::Group { delimiter, stream, span }).deep_view() == (Tok::Group {
            delimiter,
            stream: stream.deep_view(),
            span,
        }),
{
    reveal_with_fuel(<TokenTree as DeepView>::deep_view, 2);
    let t = TokenTree::Group { delimiter, stream, span };
    let inner = t.deep_view()->Group_stream;
    assert(inner =~= stream.deep_view());
}

/// Where a token is anchored.
pub open spec fn span_of(t: Tok) -> Span {
    match t {
        Tok::Group { span, .. } => span,
        Tok::Ident { span, .. } => span,
        Tok::Punct { span, .. } => span,
        Tok::Literal { span, .. } => span,
    }
}

/// Where a token is anchored.
pub fn token_span(t: &TokenTree) -> (r: Span)
    ensures
        r == span_of(t.deep_view()),
{
    match t {
        TokenTree::Group { span, .. } => *span,
        TokenTree::Ident { span, .. } => *span,
        TokenTree::Punct { span, .. } => *span,
        TokenTree::Literal { span, .. } => *span,
    }
}

/// The value of two streams, one after the other.
pub proof fn lemma_concat_view(a: Seq<TokenTree>, b: Seq<TokenTree>)
    ensures
        Seq::new((a + b).len(), |i: int| (a + b)[i].deep_view()) == Seq::new(
            a.len(),
            |i: int| a[i].deep_view(),
        ) + Seq::new(b.len(), |i: int| b[i].deep_view()),
{
    assert(Seq::new((a + b).len(), |i: int| (a + b)[i].deep_view()) =~= Seq::new(
        a.len(),
        |i: int| a[i].deep_view(),
    ) + Seq::new(b.len(), |i: int| b[i].deep_view()));
}

/// The value of a stream with one more token at its end.
pub proof fn lemma_push_view(a: Seq<TokenTree>, t: TokenTree)
    ensures
        Seq::new(a.push(t).len(), |i: int| a.push(t)[i].deep_view()) == Seq::new(
            a.len(),
            |i: int| a[i].deep_view(),
        ).push(t.deep_view()),
{
    assert(Seq::new(a.push(t).len(), |i: int| a.push(t)[i].deep_view()) =~= Seq::new(
        a.len(),
        |i: int| a[i].deep_view(),
    ).push(t.deep_view()));
}

/// A copy of one token tree.
pub fn clone_tree(t: &TokenTree) -> (r: TokenTree)
    ensures
        r.deep_view() == t.deep_view(),
    decreases t,
{
    match t {
        TokenTree::Group { delimiter, stream, span } => {
            let inner = clone_stream(stream);
            proof {
                lemma_group_view(*delimiter, inner, *span);
                lemma_group_view(*delimiter, *stream, *span);
            }
            TokenTree::Group { delimiter: *delimiter, stream: inner, span: *span }
        },
        TokenTree::Ident { name, span } => TokenTree::Ident { name: name.clone(), span: *span },
        TokenTree::Punct { ch, joint, span } => TokenTree::Punct {
            ch: *ch,
            joint: *joint,
            span: *span,
        },
        TokenTree::Literal { text, span } => TokenTree::Literal {
            text: text.clone(),
            span: *span,
        },
    }
}

/// A copy of a sequence of token trees.
pub fn clone_stream(ts: &Vec<TokenTree>) -> (r: Vec<TokenTree>)
    ensures
        r.deep_view() == ts.deep_view(),
    decreases ts,
{
    let mut out: Vec<TokenTree> = Vec::new();
    let mut i: usize = 0;
    while i < ts.len()
        invariant
            i <= ts.len(),
            out.len() == i,
            forall|k: int| 0 <= k < i ==> out@[k].deep_view() == ts@[k].deep_view(),
        decreases ts.len() - i,
    {
        let c = clone_tree(&ts[i]);
        out.push(c);
        i += 1;
    }
    assert(out.deep_view() =~= ts.deep_view());
    out
}

} // verus!
