//! Tokens of a declaration, one nesting level at a time.
//!
//! A delimited group is a single token that carries the text between its
//! delimiters; whoever needs its contents tokenizes that text in turn.

use std::str::FromStr;
use vstd::prelude::*;

verus! {

/// The delimiters that enclose a group.
#[derive(Clone, Copy, Debug, PartialEq, Eq, Structural)]
pub enum Delimiter {
    Parenthesis,
    Brace,
    Bracket,
    Invisible,
}

/// One token at the nesting level that was tokenized.
#[derive(Clone, Debug, PartialEq, Eq)]
pub enum Token {
    /// An identifier or keyword.
    Ident(String),
    /// One punctuation character; the flag says that the next punctuation
    /// character follows it directly.
    Punct(char, bool),
    /// A literal, as it is written.
    Literal(String),
    /// A delimited group, with the text between its delimiters.
    Group(Delimiter, String),
}

/// The mathematical value of a [`Token`].
pub enum TokenView {
    Ident(Seq<char>),
    Punct(char, bool),
    Literal(Seq<char>),
    Group(Delimiter, Seq<char>),
}

impl View for Token {
    type V = TokenView;

    open spec fn view(&self) -> TokenView {
        match self {
            Token::Ident(name) => TokenView::Ident(name@),
            Token::Punct(ch, joint) => TokenView::Punct(*ch, *joint),
            Token::Literal(text) => TokenView::Literal(text@),
            Token::Group(delimiter, text) => TokenView::Group(*delimiter, text@),
        }
    }
}

impl DeepView for Token {
    type V = TokenView;

    open spec fn deep_view(&self) -> TokenView {
        self@
    }
}

/// What `proc_macro2` makes of a text: its tokens at the outermost
/// nesting level, or `None` where the text is no token sequence.
///
/// This is the work of `proc_macro2`'s own lexer, a function of the text
/// alone. The crate is built without `proc_macro2`'s `proc-macro`
/// feature; with that feature switched on for the whole build,
/// `from_str` would use the compiler's lexer inside a macro expansion,
/// and the result would depend on the process.
pub uninterp spec fn lexed(text: Seq<char>) -> Option<Seq<TokenView>>;

/// Tokenizes `text` with `proc_macro2::TokenStream::from_str` and hands
/// out the token trees of the stream one for one: an identifier, a
/// literal and the contents of a group as the text that `proc_macro2`
/// prints for them, a punctuation character with its spacing. The
/// contract only names the result.
#[verifier::external_body]
pub(crate) fn lex(text: &str) -> (tokens: Option<Vec<Token>>)
    ensures
        tokens.deep_view() == lexed(text@),
{
    let stream = proc_macro2::TokenStream::from_str(text).ok()?;
    Some(stream.into_iter().map(|tree| match tree {
        proc_macro2::TokenTree::Group(g) => Token::Group(match g.delimiter() {
            proc_macro2::Delimiter::Parenthesis => Delimiter::Parenthesis,
            proc_macro2::Delimiter::Brace => Delimiter::Brace,
            proc_macro2::Delimiter::Bracket => Delimiter::Bracket,
            proc_macro2::Delimiter::None => Delimiter::Invisible,
        }, g.stream().to_string()),
        proc_macro2::TokenTree::Ident(i) => Token::Ident(i.to_string()),
        proc_macro2::TokenTree::Punct(p) => Token::Punct(p.as_char(), match p.spacing() {
            proc_macro2::Spacing::Joint => true,
            proc_macro2::Spacing::Alone => false,
        }),
        proc_macro2::TokenTree::Literal(l) => Token::Literal(l.to_string()),
    }).collect())
}

/// Tokenizes `text`: its tokens at the outermost nesting level, or
/// nothing where the text is no token sequence (a delimiter that is not
/// closed, a literal that does not end).
pub fn tokenize(text: &str) -> (tokens: Option<Vec<Token>>)
    ensures
        tokens.deep_view() == lexed(text@),
{
    lex(text)
}

/// `String::push` appends one character.
pub assume_specification[ String::push ](text: &mut String, ch: char)
    ensures
        final(text)@ == old(text)@.push(ch),
;

impl TokenView {
    /// The punctuation character `ch`, joint or not.
    pub open spec fn is_punct(self, ch: char) -> bool {
        self matches TokenView::Punct(c, _) && c == ch
    }

    /// A punctuation character that the next one follows directly.
    pub open spec fn is_joint(self) -> bool {
        self matches TokenView::Punct(_, joint) && joint
    }

    /// The identifier or keyword `name`.
    pub open spec fn is_ident(self, name: Seq<char>) -> bool {
        self matches TokenView::Ident(n) && n == name
    }

    /// A group enclosed by `delimiter`.
    pub open spec fn is_group(self, delimiter: Delimiter) -> bool {
        self matches TokenView::Group(d, _) && d == delimiter
    }

    /// Whether this is an identifier or keyword.
    pub open spec fn is_name(self) -> bool {
        self is Ident
    }

    /// The identifier or keyword; empty for any other token.
    pub open spec fn name(self) -> Seq<char> {
        match self {
            TokenView::Ident(name) => name,
            _ => Seq::empty(),
        }
    }

    /// The text between a group's delimiters; empty for any other token.
    pub open spec fn inner(self) -> Seq<char> {
        match self {
            TokenView::Group(_, inner) => inner,
            _ => Seq::empty(),
        }
    }

    /// The token as it is written.
    pub open spec fn text(self) -> Seq<char> {
        match self {
            TokenView::Ident(name) => name,
            TokenView::Punct(ch, _) => seq![ch],
            TokenView::Literal(text) => text,
            TokenView::Group(delimiter, inner) => group_text(delimiter, inner),
        }
    }
}

/// A group as it is written: braces keep a space from what they enclose.
pub open spec fn group_text(delimiter: Delimiter, inner: Seq<char>) -> Seq<char> {
    match delimiter {
        Delimiter::Parenthesis => seq!['('] + inner + seq![')'],
        Delimiter::Bracket => seq!['['] + inner + seq![']'],
        Delimiter::Brace => if inner.len() == 0 {
            seq!['{', ' ', '}']
        } else {
            seq!['{', ' '] + inner + seq![' ', '}']
        },
        Delimiter::Invisible => inner,
    }
}

/// What stands between the tokens `before` and the token that follows them:
/// one space, but nothing at the start and nothing after a joint
/// punctuation character.
pub open spec fn separator(before: Seq<TokenView>) -> Seq<char> {
    if before.len() == 0 || before.last().is_joint() {
        Seq::empty()
    } else {
        seq![' ']
    }
}

/// The text of a token sequence.
pub open spec fn rendered(tokens: Seq<TokenView>) -> Seq<char>
    decreases tokens.len(),
{
    if tokens.len() == 0 {
        Seq::empty()
    } else {
        rendered(tokens.drop_last()) + separator(tokens.drop_last()) + tokens.last().text()
    }
}

/// Writes a group enclosed by `delimiter` around `inner`.
pub fn write_group(delimiter: Delimiter, inner: &str) -> (text: String)
    ensures
        text@ == group_text(delimiter, inner@),
{
    let mut text = String::new();
    match delimiter {
        Delimiter::Parenthesis => {
            text.push('(');
            text.append(inner);
            text.push(')');
        },
        Delimiter::Bracket => {
            text.push('[');
            text.append(inner);
            text.push(']');
        },
        Delimiter::Brace => {
            text.push('{');
            text.push(' ');
            if !inner.is_empty() {
                text.append(inner);
                text.push(' ');
            }
            text.push('}');
        },
        Delimiter::Invisible => {
            text.append(inner);
        },
    }
    assert(text@ =~= group_text(delimiter, inner@));
    text
}

impl Token {
    /// Whether this is the punctuation character `ch`.
    pub fn is_punct(&self, ch: char) -> (yes: bool)
        ensures
            yes == self@.is_punct(ch),
    {
        match self {
            Token::Punct(c, _) => *c == ch,
            _ => false,
        }
    }

    /// Whether this is a punctuation character that the next one follows
    /// directly.
    pub fn is_joint(&self) -> (yes: bool)
        ensures
            yes == self@.is_joint(),
    {
        match self {
            Token::Punct(_, joint) => *joint,
            _ => false,
        }
    }

    /// Whether this is the identifier or keyword `name`.
    pub fn is_ident(&self, name: &str) -> (yes: bool)
        ensures
            yes == self@.is_ident(name@),
    {
        match self {
            Token::Ident(n) => *n == name.to_owned(),
            _ => false,
        }
    }

    /// Whether this is a group enclosed by `delimiter`.
    pub fn is_group(&self, delimiter: Delimiter) -> (yes: bool)
        ensures
            yes == self@.is_group(delimiter),
    {
        match self {
            Token::Group(d, _) => *d == delimiter,
            _ => false,
        }
    }

    /// Whether this is an identifier or keyword.
    pub fn is_name(&self) -> (yes: bool)
        ensures
            yes == self@.is_name(),
    {
        match self {
            Token::Ident(_) => true,
            _ => false,
        }
    }

    /// The identifier or keyword; empty for any other token.
    pub fn name(&self) -> (name: String)
        ensures
            name@ == self@.name(),
    {
        match self {
            Token::Ident(name) => name.clone(),
            _ => String::new(),
        }
    }

    /// The text between a group's delimiters; empty for any other token.
    pub fn inner(&self) -> (inner: String)
        ensures
            inner@ == self@.inner(),
    {
        match self {
            Token::Group(_, inner) => inner.clone(),
            _ => String::new(),
        }
    }

    /// The token as it is written.
    pub fn text(&self) -> (text: String)
        ensures
            text@ == self@.text(),
    {
        match self {
            Token::Ident(name) => name.clone(),
            Token::Punct(ch, _) => {
                let mut text = String::new();
                text.push(*ch);
                assert(text@ =~= seq![*ch]);
                text
            },
            Token::Literal(text) => text.clone(),
            Token::Group(delimiter, inner) => write_group(*delimiter, inner.as_str()),
        }
    }
}

/// The text of the tokens from `lo` up to `hi`.
pub fn render(tokens: &Vec<Token>, lo: usize, hi: usize) -> (text: String)
    requires
        lo <= hi <= tokens.len(),
    ensures
        text@ == rendered(tokens.deep_view().subrange(lo as int, hi as int)),
{
    let ghost all = tokens.deep_view();
    let mut text = String::new();
    let mut i: usize = lo;
    while i < hi
        invariant
            lo <= i <= hi <= tokens.len(),
            all == tokens.deep_view(),
            text@ == rendered(all.subrange(lo as int, i as int)),
        decreases hi - i,
    {
        let ghost before = all.subrange(lo as int, i as int);
        let ghost upto = all.subrange(lo as int, i + 1);
        assert(upto.drop_last() =~= before);
        assert(upto.last() == tokens[i as int]@);
        if i > lo && !tokens[i - 1].is_joint() {
            text.push(' ');
        }
        assert(before.len() > 0 ==> before.last() == tokens[i - 1]@);
        let piece = tokens[i].text();
        text.append(piece.as_str());
        i = i + 1;
    }
    text
}

impl Token {
    /// A copy of the token.
    pub fn duplicate(&self) -> (copy: Token)
        ensures
            copy@ == self@,
    {
        match self {
            Token::Ident(name) => Token::Ident(name.clone()),
            Token::Punct(ch, joint) => Token::Punct(*ch, *joint),
            Token::Literal(text) => Token::Literal(text.clone()),
            Token::Group(delimiter, inner) => Token::Group(*delimiter, inner.clone()),
        }
    }
}

/// Copies of the tokens from `lo` up to `hi`.
pub fn copy_range(tokens: &Vec<Token>, lo: usize, hi: usize) -> (copy: Vec<Token>)
    requires
        lo <= hi <= tokens.len(),
    ensures
        copy.deep_view() == tokens.deep_view().subrange(lo as int, hi as int),
{
    let mut copy: Vec<Token> = Vec::new();
    let mut i: usize = lo;
    while i < hi
        invariant
            lo <= i <= hi <= tokens.len(),
            copy.deep_view() == tokens.deep_view().subrange(lo as int, i as int),
        decreases hi - i,
    {
        let ghost before = copy.deep_view();
        copy.push(tokens[i].duplicate());
        assert(copy.deep_view() =~= before.push(tokens[i as int]@));
        i = i + 1;
        assert(copy.deep_view() =~= tokens.deep_view().subrange(lo as int, i as int));
    }
    copy
}

} // verus!
