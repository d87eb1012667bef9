//! The model-declaration parser: turns declaration text
//! (`Name ["as" Alias] ["with" "(" "partial" ")"] "{" fields "}"`) into a
//! [`Model`], failing fast on malformed input. The specification mirrors the
//! grammar exactly: `parse` succeeds on precisely the inputs the spec-level
//! tokenizer and grammar accept, and returns the model they denote.

use vstd::prelude::*;

use crate::ast::Field;
use crate::ast::FieldForeignNode;
use crate::ast::FieldProperty;
use crate::ast::FieldRelation;
use crate::ast::FieldRelationType;
use crate::ast::FieldView;
use crate::ast::Identifier;
use crate::ast::Model;
use crate::ast::ModelOptions;
use crate::ast::ModelView;
use crate::text::str_eq;
use crate::text::str_to_chars;
use crate::text::chars_to_string;

verus! {

/// A lexical token of the declaration grammar (mathematical content).
pub enum TokView {
    Ident(Seq<char>),
    Comma,
    LBrace,
    RBrace,
    Lt,
    Gt,
    Arrow,
    BackArrow,
    LParen,
    RParen,
}

/// A lexical token of the declaration grammar.
pub enum Token {
    Ident(String),
    Comma,
    LBrace,
    RBrace,
    Lt,
    Gt,
    Arrow,
    BackArrow,
    LParen,
    RParen,
}

impl Token {
    /// The token's mathematical content.
    pub open spec fn view(&self) -> TokView {
        match self {
            Token::Ident(s) => TokView::Ident(s@),
            Token::Comma => TokView::Comma,
            Token::LBrace => TokView::LBrace,
            Token::RBrace => TokView::RBrace,
            Token::Lt => TokView::Lt,
            Token::Gt => TokView::Gt,
            Token::Arrow => TokView::Arrow,
            Token::BackArrow => TokView::BackArrow,
            Token::LParen => TokView::LParen,
            Token::RParen => TokView::RParen,
        }
    }
}

/// The declaration text was not a well-formed model declaration.
#[derive(Debug)]
pub struct SyntaxError;

/// Whitespace between tokens.
pub open spec fn is_space(c: char) -> bool {
    c == ' ' || c == '\n' || c == '\t' || c == '\r'
}

/// A character that may start an identifier.
pub open spec fn is_ident_start(c: char) -> bool {
    (65 <= c as u32 && c as u32 <= 90) || (97 <= c as u32 && c as u32 <= 122) || c == '_'
}

/// A character that may continue an identifier.
pub open spec fn is_ident_char(c: char) -> bool {
    is_ident_start(c) || (48 <= c as u32 && c as u32 <= 57)
}

/// The length of the identifier starting at the head of `s`.
pub open spec fn ident_len(s: Seq<char>) -> int
    decreases s.len(),
{
    if s.len() > 0 && is_ident_char(s[0]) {
        1 + ident_len(s.skip(1))
    } else {
        0
    }
}

/// `ident_len` counts a prefix of the sequence.
pub proof fn lemma_ident_len_bounds(s: Seq<char>)
    ensures
        0 <= ident_len(s) <= s.len(),
    decreases s.len(),
{
    if s.len() > 0 && is_ident_char(s[0]) {
        lemma_ident_len_bounds(s.skip(1));
    }
}

/// Prepends a token to a tokenization result; a failed tail stays failed.
pub open spec fn tok_cons(t: TokView, rest: Option<Seq<TokView>>) -> Option<Seq<TokView>> {
    match rest {
        Option::Some(ts) => Option::Some(seq![t] + ts),
        Option::None => Option::None,
    }
}

/// The token sequence of the declaration text, or `None` when a character
/// fits no token. `r#name` spells the identifier `name` verbatim.
pub open spec fn spec_tokenize(s: Seq<char>) -> Option<Seq<TokView>>
    decreases s.len(),
    when true
    via spec_tokenize_dec
{
    if s.len() == 0 {
        Option::Some(Seq::empty())
    } else if is_space(s[0]) {
        spec_tokenize(s.skip(1))
    } else if s[0] == ',' {
        tok_cons(TokView::Comma, spec_tokenize(s.skip(1)))
    } else if s[0] == '{' {
        tok_cons(TokView::LBrace, spec_tokenize(s.skip(1)))
    } else if s[0] == '}' {
        tok_cons(TokView::RBrace, spec_tokenize(s.skip(1)))
    } else if s[0] == '(' {
        tok_cons(TokView::LParen, spec_tokenize(s.skip(1)))
    } else if s[0] == ')' {
        tok_cons(TokView::RParen, spec_tokenize(s.skip(1)))
    } else if s[0] == '>' {
        tok_cons(TokView::Gt, spec_tokenize(s.skip(1)))
    } else if s[0] == '-' {
        if s.len() >= 2 && s[1] == '>' {
            tok_cons(TokView::Arrow, spec_tokenize(s.skip(2)))
        } else {
            Option::None
        }
    } else if s[0] == '<' {
        if s.len() >= 2 && s[1] == '-' {
            tok_cons(TokView::BackArrow, spec_tokenize(s.skip(2)))
        } else {
            tok_cons(TokView::Lt, spec_tokenize(s.skip(1)))
        }
    } else if s[0] == 'r' && s.len() >= 3 && s[1] == '#' && is_ident_start(s[2]) {
        let n = ident_len(s.skip(2));
        tok_cons(TokView::Ident(s.skip(2).take(n)), spec_tokenize(s.skip(2 + n)))
    } else if is_ident_start(s[0]) {
        let n = ident_len(s);
        tok_cons(TokView::Ident(s.take(n)), spec_tokenize(s.skip(n)))
    } else {
        Option::None
    }
}

#[via_fn]
proof fn spec_tokenize_dec(s: Seq<char>) {
    lemma_ident_len_bounds(s);
    if s.len() > 0 {
        lemma_ident_len_bounds(s.skip(1));
    }
    if s.len() >= 3 {
        lemma_ident_len_bounds(s.skip(2));
        lemma_ident_len_bounds(s.skip(2).skip(1));
        assert(s.skip(2)[0] == s[2]);
    }
}

/// Whether the token is the identifier `w`.
pub open spec fn is_kw(t: TokView, w: Seq<char>) -> bool {
    t matches TokView::Ident(n) && n == w
}

/// One field of the grammar: `["pub"] name`, `["pub"] name "<" foreign ">"`,
/// or `["pub"] edge name edge foreign "as" alias` with matching edges.
/// Returns the field and the index past it.
pub open spec fn spec_parse_field(ts: Seq<TokView>, i: int) -> Option<(FieldView, int)> {
    let is_public = i < ts.len() && is_kw(ts[i], "pub"@);
    let j = if is_public {
        i + 1
    } else {
        i
    };
    if j < ts.len() {
        match ts[j] {
            TokView::Arrow => spec_parse_relation(ts, j, true, is_public),
            TokView::BackArrow => spec_parse_relation(ts, j, false, is_public),
            TokView::Ident(name) => if name == "pub"@ {
                Option::None
            } else if j + 1 < ts.len() && ts[j + 1] is Lt {
                if j + 3 < ts.len() && ts[j + 2] is Ident && ts[j + 3] is Gt {
                    Option::Some(
                        (
                            FieldView::ForeignNode {
                                name: name,
                                foreign_type: ts[j + 2]->Ident_0,
                                is_public: is_public,
                            },
                            j + 4,
                        ),
                    )
                } else {
                    Option::None
                }
            } else {
                Option::Some((FieldView::Property { name: name, is_public: is_public }, j + 1))
            },
            _ => Option::None,
        }
    } else {
        Option::None
    }
}

/// The relation production: `edge name edge foreign "as" alias`, the second
/// edge matching the first.
pub open spec fn spec_parse_relation(
    ts: Seq<TokView>,
    j: int,
    outgoing: bool,
    is_public: bool,
) -> Option<(FieldView, int)> {
    if j + 5 < ts.len() && ts[j + 1] is Ident && (if outgoing {
        ts[j + 2] is Arrow
    } else {
        ts[j + 2] is BackArrow
    }) && ts[j + 3] is Ident && is_kw(ts[j + 4], "as"@) && ts[j + 5] is Ident {
        Option::Some(
            (
                FieldView::Relation {
                    name: ts[j + 1]->Ident_0,
                    foreign_type: ts[j + 3]->Ident_0,
                    alias: ts[j + 5]->Ident_0,
                    outgoing: outgoing,
                    is_public: is_public,
                },
                j + 6,
            ),
        )
    } else {
        Option::None
    }
}

/// A parsed field consumes at least one token and stays within bounds.
pub proof fn lemma_parse_field_advances(ts: Seq<TokView>, i: int)
    requires
        0 <= i,
    ensures
        spec_parse_field(ts, i) matches Option::Some((f, j)) ==> i < j <= ts.len(),
{
}

/// The comma-separated field list, ending before a closing brace; a trailing
/// comma is permitted. Returns the fields and the index of the token that
/// ended the list.
pub open spec fn spec_parse_fields(ts: Seq<TokView>, i: int) -> Option<(Seq<FieldView>, int)>
    decreases ts.len() - i,
    when 0 <= i
    via spec_parse_fields_dec
{
    if i < ts.len() && ts[i] is RBrace {
        Option::Some((Seq::empty(), i))
    } else {
        match spec_parse_field(ts, i) {
            Option::None => Option::None,
            Option::Some((f, j)) => if j <= i || j > ts.len() {
                Option::None
            } else if j < ts.len() && ts[j] is Comma {
                match spec_parse_fields(ts, j + 1) {
                    Option::None => Option::None,
                    Option::Some((rest, k)) => Option::Some((seq![f] + rest, k)),
                }
            } else {
                Option::Some((seq![f], j))
            },
        }
    }
}

#[via_fn]
proof fn spec_parse_fields_dec(ts: Seq<TokView>, i: int) {
}

/// Accessor identifiers are pairwise distinct within one model.
pub open spec fn distinct_accessors(fields: Seq<FieldView>) -> bool {
    forall|a: int, b: int|
        0 <= a < b < fields.len() ==> (#[trigger] fields[a].accessor())
            != (#[trigger] fields[b].accessor())
}

/// The whole declaration:
/// `Name ["as" Alias] ["with" "(" "partial" ")"] "{" fields "}"`, with every
/// token consumed and the fields' accessor identifiers pairwise distinct.
pub open spec fn spec_parse_model(ts: Seq<TokView>) -> Option<ModelView> {
    if 0 < ts.len() && ts[0] is Ident {
        let (alias, i) = if 1 < ts.len() && is_kw(ts[1], "as"@) {
            if 2 < ts.len() && ts[2] is Ident {
                (Option::Some(ts[2]->Ident_0), 3int)
            } else {
                (Option::None, ts.len() as int + 1)
            }
        } else {
            (Option::None, 1int)
        };
        if i > ts.len() {
            Option::None
        } else {
            let (partial, j) = if i < ts.len() && is_kw(ts[i], "with"@) {
                if i + 3 < ts.len() && ts[i + 1] is LParen && is_kw(ts[i + 2], "partial"@)
                    && ts[i + 3] is RParen {
                    (true, i + 4)
                } else {
                    (false, ts.len() as int + 1)
                }
            } else {
                (false, i)
            };
            if j > ts.len() {
                Option::None
            } else if j < ts.len() && ts[j] is LBrace {
                match spec_parse_fields(ts, j + 1) {
                    Option::None => Option::None,
                    Option::Some((fields, k)) => if k < ts.len() && ts[k] is RBrace && k + 1
                        == ts.len() && distinct_accessors(fields) {
                        Option::Some(
                            ModelView {
                                name: ts[0]->Ident_0,
                                alias: alias,
                                partial: partial,
                                fields: fields,
                            },
                        )
                    } else {
                        Option::None
                    },
                }
            } else {
                Option::None
            }
        }
    } else {
        Option::None
    }
}

/// The model a declaration text denotes, if it is well formed.
pub open spec fn spec_parse(s: Seq<char>) -> Option<ModelView> {
    match spec_tokenize(s) {
        Option::None => Option::None,
        Option::Some(ts) => spec_parse_model(ts),
    }
}

/// Turns declaration text into tokens (see [`spec_tokenize`]).
pub fn tokenize(input: &str) -> (r: Result<Vec<Token>, SyntaxError>)
    ensures
        match spec_tokenize(input@) {
            Option::Some(tvs) => r matches Ok(toks) && toks@.len() == tvs.len() && (forall|
                k: int,
            | 0 <= k < tvs.len() ==> (#[trigger] toks@[k].view()) == tvs[k]),
            Option::None => r is Err,
        },
{
    let chars = str_to_chars(input);
    let ghost s = input@;
    let mut out: Vec<Token> = Vec::new();
    let ghost mut tvs: Seq<TokView> = Seq::empty();
    let mut i: usize = 0;
    proof {
        assert(s.skip(0) =~= s);
        assert(tok_prefix_holds(s, tvs, spec_tokenize(s.skip(0 as int))));
    }
    while i < chars.len()
        invariant
            i <= chars@.len(),
            s == input@,
            chars@ == s,
            tvs.len() == out@.len(),
            forall|k: int| 0 <= k < tvs.len() ==> (#[trigger] out@[k].view()) == tvs[k],
            tok_prefix_holds(s, tvs, spec_tokenize(s.skip(i as int))),
        decreases chars.len() - i,
    {
        let c = chars[i];
        proof {
            let rest = s.skip(i as int);
            assert(rest[0] == s[i as int]);
            assert(rest.skip(1) =~= s.skip(i as int + 1));
            if i + 2 <= chars@.len() {
                assert(rest.skip(2) =~= s.skip(i as int + 2));
            }
        }
        if c == ' ' || c == '\n' || c == '\t' || c == '\r' {
            i = i + 1;
        } else if c == ',' {
            out.push(Token::Comma);
            proof {
                lemma_tok_step(s, tvs, i as int + 1, TokView::Comma);
                tvs = tvs.push(TokView::Comma);
            }
            i = i + 1;
        } else if c == '{' {
            out.push(Token::LBrace);
            proof {
                lemma_tok_step(s, tvs, i as int + 1, TokView::LBrace);
                tvs = tvs.push(TokView::LBrace);
            }
            i = i + 1;
        } else if c == '}' {
            out.push(Token::RBrace);
            proof {
                lemma_tok_step(s, tvs, i as int + 1, TokView::RBrace);
                tvs = tvs.push(TokView::RBrace);
            }
            i = i + 1;
        } else if c == '(' {
            out.push(Token::LParen);
            proof {
                lemma_tok_step(s, tvs, i as int + 1, TokView::LParen);
                tvs = tvs.push(TokView::LParen);
            }
            i = i + 1;
        } else if c == ')' {
            out.push(Token::RParen);
            proof {
                lemma_tok_step(s, tvs, i as int + 1, TokView::RParen);
                tvs = tvs.push(TokView::RParen);
            }
            i = i + 1;
        } else if c == '>' {
            out.push(Token::Gt);
            proof {
                lemma_tok_step(s, tvs, i as int + 1, TokView::Gt);
                tvs = tvs.push(TokView::Gt);
            }
            i = i + 1;
        } else if c == '-' {
            if i + 1 < chars.len() && chars[i + 1] == '>' {
                out.push(Token::Arrow);
                proof {
                    lemma_tok_step(s, tvs, i as int + 2, TokView::Arrow);
                    tvs = tvs.push(TokView::Arrow);
                }
                i = i + 2;
            } else {
                proof {
                    if i + 1 < s.len() {
                        assert(s.skip(i as int)[1] == s[i as int + 1]);
                    } else {
                        assert(s.skip(i as int).len() < 2);
                    }
                    assert(spec_tokenize(s.skip(i as int)) is None);
                    assert(spec_tokenize(s) is None);
                }
                return Err(SyntaxError);
            }
        } else if c == '<' {
            if i + 1 < chars.len() && chars[i + 1] == '-' {
                out.push(Token::BackArrow);
                proof {
                    lemma_tok_step(s, tvs, i as int + 2, TokView::BackArrow);
                    tvs = tvs.push(TokView::BackArrow);
                }
                i = i + 2;
            } else {
                out.push(Token::Lt);
                proof {
                    lemma_tok_step(s, tvs, i as int + 1, TokView::Lt);
                    tvs = tvs.push(TokView::Lt);
                }
                i = i + 1;
            }
        } else {
            let raw = c == 'r' && chars.len() - i > 2 && chars[i + 1] == '#' && {
                let c2 = chars[i + 2];
                (65 <= c2 as u32 && c2 as u32 <= 90) || (97 <= c2 as u32 && c2 as u32 <= 122)
                    || c2 == '_'
            };
            let start_ok = (65 <= c as u32 && c as u32 <= 90) || (97 <= c as u32 && c as u32
                <= 122) || c == '_';
            if raw {
                let name_start = i + 2;
                let (name, next) = munch_ident(&chars, name_start);
                proof {
                    let rest = s.skip(i as int);
                    assert(rest.skip(2) =~= s.skip(name_start as int));
                    assert(rest.skip(2).take(ident_len(rest.skip(2))) =~= s.skip(
                        name_start as int,
                    ).take(ident_len(s.skip(name_start as int))));
                }
                out.push(Token::Ident(name));
                proof {
                    let rest = s.skip(i as int);
                    let n = ident_len(rest.skip(2));
                    lemma_ident_len_bounds(s.skip(name_start as int));
                    lemma_ident_len_bounds(s.skip(name_start as int).skip(1));
                    assert(rest.skip(2) =~= s.skip(name_start as int));
                    assert(s.skip(name_start as int)[0] == s[name_start as int]);
                    assert(rest[1] == s[i as int + 1]);
                    assert(rest[2] == s[i as int + 2]);
                    assert(n >= 1);
                    assert(rest.skip(2).skip(n) =~= s.skip(name_start + n));
                    assert(rest.skip(2 + n) =~= s.skip(name_start + n));
                    lemma_tok_step(s, tvs, name_start + n, TokView::Ident(
                        rest.skip(2).take(n),
                    ));
                    tvs = tvs.push(TokView::Ident(rest.skip(2).take(n)));
                }
                i = next;
            } else if start_ok {
                let (name, next) = munch_ident(&chars, i);
                out.push(Token::Ident(name));
                proof {
                    let rest = s.skip(i as int);
                    let n = ident_len(rest);
                    assert(rest.take(n) =~= s.skip(i as int).take(n));
                    lemma_ident_len_bounds(rest);
                    lemma_ident_len_bounds(rest.skip(1));
                    assert(rest[0] == s[i as int]);
                    assert(n >= 1);
                    assert(rest.skip(n) =~= s.skip(i + n));
                    lemma_tok_step(s, tvs, i + n, TokView::Ident(rest.take(n)));
                    tvs = tvs.push(TokView::Ident(rest.take(n)));
                }
                i = next;
            } else {
                proof {
                    assert(spec_tokenize(s.skip(i as int)) is None);
                    assert(spec_tokenize(s) is None);
                }
                return Err(SyntaxError);
            }
        }
    }
    proof {
        assert(s.skip(s.len() as int) =~= Seq::<char>::empty());
        if spec_tokenize(s) is Some {
            assert(spec_tokenize(s)->Some_0 =~= tvs);
        }
    }
    Ok(out)
}

/// What the tokenizer has established after emitting `done`: the whole
/// tokenization equals `done` followed by the tokens of the remaining text.
pub open spec fn tok_prefix_holds(
    s: Seq<char>,
    done: Seq<TokView>,
    rest: Option<Seq<TokView>>,
) -> bool {
    spec_tokenize(s) == (match rest {
        Option::Some(ts) => Option::Some(done + ts),
        Option::None => Option::<Seq<TokView>>::None,
    })
}

proof fn lemma_tok_step(s: Seq<char>, done: Seq<TokView>, next: int, t: TokView)
    requires
        0 <= next <= s.len(),
        tok_prefix_holds(s, done, tok_cons(t, spec_tokenize(s.skip(next)))),
    ensures
        tok_prefix_holds(s, done.push(t), spec_tokenize(s.skip(next))),
{
    match spec_tokenize(s.skip(next)) {
        Option::Some(ts) => {
            assert(done + (seq![t] + ts) =~= done.push(t) + ts);
        },
        Option::None => {
        },
    }
}

/// Reads the identifier starting at `at` (which must be an identifier
/// character), returning its text and the index past it.
fn munch_ident(chars: &Vec<char>, at: usize) -> (r: (String, usize))
    requires
        at < chars@.len(),
        is_ident_char(chars@[at as int]),
    ensures
        r.1 == at + ident_len(chars@.skip(at as int)),
        r.0@ == chars@.skip(at as int).take(ident_len(chars@.skip(at as int))),
{
    let ghost rest = chars@.skip(at as int);
    let mut j: usize = at;
    let mut name: Vec<char> = Vec::new();
    proof {
        lemma_ident_len_bounds(rest);
        assert(rest.skip(0) =~= rest);
    }
    loop
        invariant
            at <= j <= chars@.len(),
            rest == chars@.skip(at as int),
            name@ == rest.take(j - at),
            ident_len(rest) == (j - at) + ident_len(rest.skip(j - at)),
        ensures
            at <= j <= chars@.len(),
            name@ == rest.take(j - at),
            ident_len(rest) == j - at,
        decreases chars@.len() - j,
    {
        proof {
            lemma_ident_len_bounds(rest.skip(j - at));
            assert(rest.skip(j - at).len() == rest.len() - (j - at));
        }
        if j >= chars.len() {
            proof {
                assert(rest.skip(j - at).len() == 0);
            }
            break;
        }
        let c = chars[j];
        proof {
            assert(rest.skip(j - at)[0] == chars@[j as int]);
        }
        let ident_ok = (65 <= c as u32 && c as u32 <= 90) || (97 <= c as u32 && c as u32 <= 122)
            || c == '_' || (48 <= c as u32 && c as u32 <= 57);
        if !ident_ok {
            proof {
                assert(ident_len(rest.skip(j - at)) == 0);
            }
            break;
        }
        name.push(c);
        proof {
            assert(rest.skip(j - at).skip(1) =~= rest.skip(j - at + 1));
            assert(name@ =~= rest.take(j - at + 1));
        }
        j = j + 1;
    }
    (chars_to_string(&name), j)
}

/// Parses one field starting at token `i` (see [`spec_parse_field`]).
fn parse_field_at(toks: &Vec<Token>, i: usize) -> (r: Result<(Field, usize), SyntaxError>)
    requires
        i <= toks@.len(),
    ensures
        match spec_parse_field(toks@.map(|_k: int, t: Token| t.view()), i as int) {
            Option::Some(fj) => r matches Ok(p) && p.0.view() == fj.0 && p.1 == fj.1,
            Option::None => r is Err,
        },
{
    let ghost ts = toks@.map(|_k: int, t: Token| t.view());
    let mut is_public = false;
    let mut j = i;
    if i < toks.len() {
        if let Token::Ident(name) = &toks[i] {
            if str_eq(name.as_str(), "pub") {
                is_public = true;
                j = i + 1;
            }
        }
    }
    if j >= toks.len() {
        return Err(SyntaxError);
    }
    match &toks[j] {
        Token::Arrow => parse_relation_at(toks, j, true, is_public),
        Token::BackArrow => parse_relation_at(toks, j, false, is_public),
        Token::Ident(name) => {
            if str_eq(name.as_str(), "pub") {
                return Err(SyntaxError);
            }
            let has_lt = toks.len() - j > 1 && matches!(&toks[j + 1], Token::Lt);
            if has_lt {
                if toks.len() - j > 3 {
                    let ft = match &toks[j + 2] {
                        Token::Ident(ft) => Some(ft.clone()),
                        _ => None,
                    };
                    let gt_ok = matches!(&toks[j + 3], Token::Gt);
                    match (ft, gt_ok) {
                        (Some(ft), true) => Ok(
                            (
                                Field::ForeignNode(
                                    FieldForeignNode {
                                        name: Identifier(name.clone()),
                                        foreign_type: Identifier(ft),
                                        is_public,
                                    },
                                ),
                                j + 4,
                            ),
                        ),
                        _ => Err(SyntaxError),
                    }
                } else {
                    Err(SyntaxError)
                }
            } else {
                Ok(
                    (
                        Field::Property(
                            FieldProperty { name: Identifier(name.clone()), is_public },
                        ),
                        j + 1,
                    ),
                )
            }
        },
        _ => Err(SyntaxError),
    }
}

/// Parses a relation production starting at its first edge token (see
/// [`spec_parse_relation`]).
fn parse_relation_at(toks: &Vec<Token>, j: usize, outgoing: bool, is_public: bool) -> (r:
    Result<(Field, usize), SyntaxError>)
    requires
        j < toks@.len(),
    ensures
        match spec_parse_relation(
            toks@.map(|_k: int, t: Token| t.view()),
            j as int,
            outgoing,
            is_public,
        ) {
            Option::Some(fj) => r matches Ok(p) && p.0.view() == fj.0 && p.1 == fj.1,
            Option::None => r is Err,
        },
{
    if toks.len() - j <= 5 {
        return Err(SyntaxError);
    }
    let name = match &toks[j + 1] {
        Token::Ident(n) => n.clone(),
        _ => {
            return Err(SyntaxError);
        },
    };
    let edge_ok = if outgoing {
        matches!(&toks[j + 2], Token::Arrow)
    } else {
        matches!(&toks[j + 2], Token::BackArrow)
    };
    if !edge_ok {
        return Err(SyntaxError);
    }
    let ft = match &toks[j + 3] {
        Token::Ident(n) => n.clone(),
        _ => {
            return Err(SyntaxError);
        },
    };
    let as_ok = match &toks[j + 4] {
        Token::Ident(n) => str_eq(n.as_str(), "as"),
        _ => false,
    };
    if !as_ok {
        return Err(SyntaxError);
    }
    let alias = match &toks[j + 5] {
        Token::Ident(n) => n.clone(),
        _ => {
            return Err(SyntaxError);
        },
    };
    Ok(
        (
            Field::Relation(
                FieldRelation {
                    name: Identifier(name),
                    foreign_type: Identifier(ft),
                    alias: Identifier(alias),
                    relation_type: if outgoing {
                        FieldRelationType::OutgoingEdge
                    } else {
                        FieldRelationType::IncomingEdge
                    },
                    is_public,
                },
            ),
            j + 6,
        ),
    )
}

/// Parses the field list starting at token `i` (see [`spec_parse_fields`]).
fn parse_fields_at(toks: &Vec<Token>, i: usize) -> (r: Result<
    (Vec<Field>, usize),
    SyntaxError,
>)
    requires
        i <= toks@.len(),
    ensures
        match spec_parse_fields(toks@.map(|_k: int, t: Token| t.view()), i as int) {
            Option::Some(fk) => r matches Ok(p) && p.0@.len() == fk.0.len() && (forall|m: int|
                0 <= m < fk.0.len() ==> (#[trigger] p.0@[m].view()) == fk.0[m]) && p.1 == fk.1,
            Option::None => r is Err,
        },
    decreases toks@.len() - i,
{
    let ghost ts = toks@.map(|_k: int, t: Token| t.view());
    if i < toks.len() && matches!(&toks[i], Token::RBrace) {
        return Ok((Vec::new(), i));
    }
    let (field, j) = match parse_field_at(toks, i) {
        Ok(p) => p,
        Err(e) => {
            return Err(e);
        },
    };
    proof {
        lemma_parse_field_advances(ts, i as int);
    }
    if j < toks.len() && matches!(&toks[j], Token::Comma) {
        let (mut rest, k) = match parse_fields_at(toks, j + 1) {
            Ok(p) => p,
            Err(e) => {
                return Err(e);
            },
        };
        rest.insert(0, field);
        proof {
            let sub = spec_parse_fields(ts, j as int + 1)->Some_0.0;
            assert(spec_parse_fields(ts, i as int)->Some_0.0 =~= seq![
                spec_parse_field(ts, i as int)->Some_0.0,
            ] + sub);
        }
        Ok((rest, k))
    } else {
        let mut fields: Vec<Field> = Vec::new();
        fields.push(field);
        Ok((fields, j))
    }
}

/// Checks that the fields' accessor identifiers are pairwise distinct.
fn check_distinct(fields: &Vec<Field>) -> (r: bool)
    ensures
        r == distinct_accessors(fields@.map(|_k: int, f: Field| f.view())),
{
    let ghost fvs = fields@.map(|_k: int, f: Field| f.view());
    let mut a: usize = 0;
    while a < fields.len()
        invariant
            a <= fields@.len(),
            fvs == fields@.map(|_k: int, f: Field| f.view()),
            forall|x: int, y: int| 0 <= x < y < fvs.len() && x < a ==> (
            #[trigger] fvs[x].accessor()) != (#[trigger] fvs[y].accessor()),
        decreases fields.len() - a,
    {
        let name_a = fields[a].accessor_name();
        let mut b: usize = a + 1;
        while b < fields.len()
            invariant
                a < fields@.len(),
                a + 1 <= b <= fields@.len(),
                fvs == fields@.map(|_k: int, f: Field| f.view()),
                name_a@ == fvs[a as int].accessor(),
                forall|y: int| a < y < b ==> (#[trigger] fvs[y].accessor()) != fvs[
                    a as int
                ].accessor(),
            decreases fields.len() - b,
        {
            let name_b = fields[b].accessor_name();
            if str_eq(name_a.as_str(), name_b.as_str()) {
                assert(fvs[a as int].accessor() == fvs[b as int].accessor());
                return false;
            }
            b = b + 1;
        }
        a = a + 1;
    }
    true
}

/// Parses model declarations.
pub struct ModelParser;

impl ModelParser {
    pub fn new() -> (r: ModelParser)
    {
        ModelParser
    }

    /// Turns the declaration text into a [`Model`]. Succeeds on exactly the
    /// texts the declaration grammar accepts (see [`spec_parse`]), and the
    /// returned model is the one the text denotes; every other input is
    /// rejected with a [`SyntaxError`].
    pub fn parse(&self, input: &str) -> (r: Result<Model, SyntaxError>)
        ensures
            match spec_parse(input@) {
                Option::Some(mv) => r matches Ok(m) && m.view() == mv,
                Option::None => r is Err,
            },
    {
        let toks = match tokenize(input) {
            Ok(t) => t,
            Err(e) => {
                return Err(e);
            },
        };
        let ghost ts = toks@.map(|_k: int, t: Token| t.view());
        proof {
            assert(ts =~= spec_tokenize(input@)->Some_0);
        }
        if toks.len() == 0 {
            return Err(SyntaxError);
        }
        let name = match &toks[0] {
            Token::Ident(n) => n.clone(),
            _ => {
                return Err(SyntaxError);
            },
        };
        let mut alias: Option<Identifier> = None;
        let mut i: usize = 1;
        let has_as = 1 < toks.len() && (match &toks[1] {
            Token::Ident(n) => str_eq(n.as_str(), "as"),
            _ => false,
        });
        if has_as {
            if 2 < toks.len() {
                match &toks[2] {
                    Token::Ident(a) => {
                        alias = Some(Identifier(a.clone()));
                        i = 3;
                    },
                    _ => {
                        return Err(SyntaxError);
                    },
                }
            } else {
                return Err(SyntaxError);
            }
        }
        let mut partial = false;
        let has_with = i < toks.len() && (match &toks[i] {
            Token::Ident(n) => str_eq(n.as_str(), "with"),
            _ => false,
        });
        if has_with {
            let with_ok = toks.len() - i > 3 && matches!(&toks[i + 1], Token::LParen) && (
            match &toks[i + 2] {
                Token::Ident(n) => str_eq(n.as_str(), "partial"),
                _ => false,
            }) && matches!(&toks[i + 3], Token::RParen);
            if with_ok {
                partial = true;
                i = i + 4;
            } else {
                return Err(SyntaxError);
            }
        }
        if !(i < toks.len() && matches!(&toks[i], Token::LBrace)) {
            return Err(SyntaxError);
        }
        let (fields, k) = match parse_fields_at(&toks, i + 1) {
            Ok(p) => p,
            Err(e) => {
                return Err(e);
            },
        };
        let end_ok = k < toks.len() && matches!(&toks[k], Token::RBrace) && k + 1 == toks.len();
        if !end_ok {
            return Err(SyntaxError);
        }
        proof {
            let fk = spec_parse_fields(ts, i as int + 1)->Some_0;
            assert(fields@.map(|_k: int, f: Field| f.view()) =~= fk.0);
        }
        if !check_distinct(&fields) {
            return Err(SyntaxError);
        }
        let model = Model {
            name: Identifier(name),
            fields,
            alias,
            options: ModelOptions { partial },
        };
        proof {
            assert(spec_parse_model(ts) is Some);
            let mv = spec_parse_model(ts)->Some_0;
            assert(model.view().fields =~= mv.fields);
            assert(model.view().name == mv.name);
            assert(model.view().alias == mv.alias);
            assert(model.view().partial == mv.partial);
            assert(model.view() == mv);
        }
        Ok(model)
    }
}


} // verus!
