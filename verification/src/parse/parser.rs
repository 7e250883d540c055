use vstd::prelude::*;

use crate::hashtags::{DefTags, FunTags, Hashtag, RecTags, TagRecTags, TagTags};
use crate::text::parse_usize;

use super::ast::{lemma_nodes_view_empty, tag_entries_view, tag_rec_entries_view, 
    lemma_arrays_view_push, lemma_cases_view_push, lemma_named_nodes_view_push,
    lemma_nodes_view_push, lemma_strings_view_push, lemma_tag_entries_view_push,
    lemma_tag_rec_entries_view_push, cases_view, named_nodes_view, nodes_view, arrays_view, strings_view,
    opt_node_view, Node, NodeKind, SKind, SNode,
};
use super::error::ParseError;
use super::grammar::{lemma_cast_err_extends, atom_start, binds_at_least, lemma_advance, spec_cast_hashtags, PModel, SFailure};
use super::lexer::Lexer;
use super::operator::{spec_operator, Associativity, OperatorKind, Precedence};
use super::token::{Token, TokenKind};

verus! {

/// Why parsing stopped: the error, an optional hint, and the token to point at.
#[derive(Debug)]
pub struct ParseFailure {
    pub error: ParseError,
    pub help: Option<&'static str>,
    pub token: Token,
}

impl View for ParseFailure {
    type V = SFailure;

    open spec fn view(&self) -> SFailure {
        SFailure {
            error: self.error@,
            help: match self.help {
                Some(h) => Some(h@),
                None => None,
            },
            token: self.token@,
        }
    }
}

/// The view of a parsing step's result.
pub open spec fn out_view<T: View>(r: Result<T, ParseFailure>) -> Result<T::V, SFailure> {
    match r {
        Ok(v) => Ok(v@),
        Err(e) => Err(e@),
    }
}

/// The view of a parsing step that gives a list of nodes.
pub open spec fn nodes_out(r: Result<Vec<Node>, ParseFailure>) -> Result<Seq<SNode>, SFailure> {
    match r {
        Ok(v) => Ok(nodes_view(v@)),
        Err(e) => Err(e@),
    }
}

/// A recursive descent parser over the tokens of a lexer.
pub struct Parser {
    pub lexer: Lexer,
    /// current token
    pub token: Token,
    /// previous token
    pub prev: Token,
    pub done: bool,
}

impl View for Parser {
    type V = PModel;

    open spec fn view(&self) -> PModel {
        PModel { lex: self.lexer@, token: self.token@, prev: self.prev@, done: self.done }
    }
}

impl Parser {
    /// A parser that reads its tokens from `lexer`.
    pub fn new(lexer: Lexer) -> (r: Parser)
        requires
            lexer@.wf(),
            lexer@.pos <= lexer@.src.len(),
        ensures
            r@ == (PModel {
                lex: lexer@,
                token: super::token::empty_stoken(),
                prev: super::token::empty_stoken(),
                done: false,
            }),
            r@.wf(),
    {
        Parser { lexer, token: Token::empty(), prev: Token::empty(), done: false }
    }

    pub(crate) fn fail<T>(&self, error: ParseError, help: Option<&'static str>) -> (r: Result<T, ParseFailure>)
        ensures
            r is Err,
            r->Err_0@ == (SFailure {
                error: error@,
                help: match help {
                    Some(h) => Some(h@),
                    None => None,
                },
                token: self.token@,
            }),
    {
        Err(ParseFailure { error, help, token: self.token.duplicate() })
    }

    // Token utilities

    /// Moves to the next token; `Ok(false)` once the input is exhausted.
    pub fn advance(&mut self) -> (r: Result<bool, ParseFailure>)
        requires
            old(self)@.wf(),
        ensures
            (out_view(r), final(self)@) == old(self)@.advance(),
            r is Ok ==> final(self)@.wf(),
            final(self)@.measure() <= old(self)@.measure(),
            !old(self)@.done ==> final(self)@.below(old(self)@),
    {
        reveal(PModel::advance);
        proof {
            lemma_advance(self@);
        }
        self.prev = self.token.duplicate();
        if self.done {
            return Ok(false);
        }
        match self.lexer.next_token() {
            Err(e) => Err(
                ParseFailure {
                    error: ParseError::AdvanceError(e),
                    help: None,
                    token: self.token.duplicate(),
                },
            ),
            Ok(t) => {
                let more = t.kind != TokenKind::Eof;
                self.done = !more;
                self.token = t;
                Ok(more)
            },
        }
    }

    /// Moves past the current token if it is of kind `kind`, and says whether it did.
    pub fn accept(&mut self, kind: TokenKind) -> (r: Result<bool, ParseFailure>)
        requires
            old(self)@.wf(),
        ensures
            (out_view(r), final(self)@) == old(self)@.accept(kind),
            r is Ok ==> final(self)@.wf(),
            final(self)@.measure() <= old(self)@.measure(),
            r is Ok && r->Ok_0 && kind != TokenKind::Eof ==> final(self)@.below(old(self)@),
    {
        if self.token.kind == kind {
            match self.advance() {
                Ok(_) => Ok(true),
                Err(e) => Err(e),
            }
        } else {
            Ok(false)
        }
    }

    /// Moves past the current token, which must be of kind `kind`; `msg` explains
    /// the error otherwise.
    pub fn expect(&mut self, kind: TokenKind, msg: &'static str) -> (r: Result<(), ParseFailure>)
        requires
            old(self)@.wf(),
        ensures
            (out_view(r), final(self)@) == old(self)@.expect(kind, msg@),
            r is Ok ==> final(self)@.wf(),
            final(self)@.measure() <= old(self)@.measure(),
            r is Ok && kind != TokenKind::Eof ==> final(self)@.below(old(self)@),
    {
        if self.token.kind == kind {
            match self.advance() {
                Ok(_) => Ok(()),
                Err(e) => Err(e),
            }
        } else {
            self.fail(ParseError::ExpectedToken(self.token.duplicate()), Some(msg))
        }
    }

    // Types

    /// Parses a type: `^`s, then a name with array suffixes or a function pointer type.
    #[verifier::loop_isolation(false)]
    pub fn parse_type(&mut self) -> (r: Result<Node, ParseFailure>)
        requires
            old(self)@.wf(),
        ensures
            (out_view(r), final(self)@) == old(self)@.parse_type(),
            r is Ok ==> final(self)@.wf() && final(self)@.below(old(self)@),
        decreases old(self)@.measure(), 1nat,
    {
        let ghost s0 = self@;
        let line = self.token.line;
        let column = self.token.column;
        let mut pointers: u8 = 0;
        loop
            invariant
                self@.wf(),
                self@.measure() <= s0.measure(),
                s0.pointer_loop(0) == self@.pointer_loop(pointers),
            decreases self@.measure(),
        {
            let more = match self.accept(TokenKind::Pointer) {
                Ok(b) => b,
                Err(e) => return Err(e),
            };
            if !more {
                break;
            }
            pointers = if pointers == 255 { 0 } else { pointers + 1 };
        }
        assert(s0.pointer_loop(0) == (Ok::<u8, SFailure>(pointers), self@));
        let ghost s1 = self@;
        let is_fun = match self.accept(TokenKind::KwFun) {
            Ok(b) => b,
            Err(e) => return Err(e),
        };
        if is_fun {
            let r = self.fun_type(line, column, pointers);
            assert(s1.accept(TokenKind::KwFun).0 == Ok::<bool, SFailure>(true));
            assert(s1.accept(TokenKind::KwFun).1.below(s0));
            assert((out_view(r), self@) == s0.parse_type());
            r
        } else {
            self.named_type(line, column, pointers)
        }
    }

    /// A function pointer type, after `fun`.
    #[verifier::loop_isolation(false)]
    #[verifier::rlimit(50)]
    fn fun_type(&mut self, line: usize, column: usize, pointers: u8) -> (r: Result<Node, ParseFailure>)
        requires
            old(self)@.wf(),
        ensures
            (out_view(r), final(self)@) == old(self)@.fun_type(line as int, column as int, pointers),
            r is Ok ==> final(self)@.wf() && final(self)@.below(old(self)@),
        decreases old(self)@.measure(), 0nat,
    {
        let ghost s0 = self@;
        match self.expect(TokenKind::OpenParen, "expected open parenthesis after `fun` type") {
            Ok(()) => {},
            Err(e) => return Err(e),
        }
        let mut args: Vec<Node> = Vec::new();
        if self.token.kind != TokenKind::CloseParen {
            let ghost s3 = self@;
            loop
                invariant
                    self@.wf(),
                    self@.below(s0),
                    s3.type_args(Seq::empty()) == self@.type_args(nodes_view(args@)),
                decreases self@.measure(),
            {
                let t = match self.parse_type() {
                    Ok(t) => t,
                    Err(e) => return Err(e),
                };
                proof {
                    lemma_nodes_view_push(args@, t);
                }
                args.push(t);
                let more = match self.accept(TokenKind::Comma) {
                    Ok(b) => b,
                    Err(e) => return Err(e),
                };
                if !more {
                    break;
                }
            }
        }
        match self.expect(TokenKind::CloseParen, "expected closing parenthesis for funptr") {
            Ok(()) => {},
            Err(e) => return Err(e),
        }
        let colon = match self.accept(TokenKind::Colon) {
            Ok(b) => b,
            Err(e) => return Err(e),
        };
        let rets = if colon {
            match self.parse_type() {
                Ok(t) => t,
                Err(e) => return Err(e),
            }
        } else {
            Node::get_void_type(line, column)
        };
        let bracket = match self.accept(TokenKind::OpenBracket) {
            Ok(b) => b,
            Err(e) => return Err(e),
        };
        if bracket {
            return self.fail(ParseError::FunPtrWithArrays, None);
        }
        let r = Node {
            line,
            column,
            node: NodeKind::Type {
                pointers,
                name: "fun".to_owned(),
                arrays: Vec::new(),
                funptr_args: Some(args),
                funptr_rets: Some(Box::new(rets)),
            },
        };
        proof {
            assert(r.node.view_kind()->arrays =~= Seq::empty());
            assert(r.node.view_kind()->funptr_args == Some(nodes_view(args@)));
            assert(r.node.view_kind()->funptr_rets == Some(Box::new(rets@)));
        }
        Ok(r)
    }

    /// A named type with its array suffixes.
    #[verifier::loop_isolation(false)]
    fn named_type(&mut self, line: usize, column: usize, pointers: u8) -> (r: Result<Node, ParseFailure>)
        requires
            old(self)@.wf(),
        ensures
            (out_view(r), final(self)@) == old(self)@.named_type(line as int, column as int, pointers),
            r is Ok ==> final(self)@.wf() && final(self)@.below(old(self)@),
    {
        let ghost s0 = self@;
        match self.expect(TokenKind::Identifier, "expected type identifier") {
            Ok(()) => {},
            Err(e) => return Err(e),
        }
        let name = self.prev.text.clone();
        let ghost s3 = self@;
        let mut arrays: Vec<(Option<usize>, Option<String>)> = Vec::new();
        proof {
            assert(arrays_view(arrays@) =~= Seq::empty());
        }
        loop
            invariant
                self@.wf(),
                self@.below(s0),
                s3.array_dims(Seq::empty()) == self@.array_dims(arrays_view(arrays@)),
            decreases self@.measure(),
        {
            let ghost si = self@;
            let open = match self.accept(TokenKind::OpenBracket) {
                Ok(b) => b,
                Err(e) => return Err(e),
            };
            if !open {
                assert(si.array_dims(arrays_view(arrays@)) == (Ok::<_, SFailure>(arrays_view(arrays@)), self@));
                break;
            }
            let is_int = match self.accept(TokenKind::Int) {
                Ok(b) => b,
                Err(e) => return Err(e),
            };
            if is_int {
                match parse_usize(&self.prev.text) {
                    Some(n) => {
                        proof {
                            lemma_arrays_view_push(arrays@, (Some(n), None));
                        }
                        arrays.push((Some(n), None));
                    },
                    None => {
                        return Err(
                            ParseFailure {
                                error: ParseError::InvalidArraySize(self.prev.text.clone()),
                                help: None,
                                token: self.prev.duplicate(),
                            },
                        );
                    },
                }
            } else {
                let is_id = match self.accept(TokenKind::Identifier) {
                    Ok(b) => b,
                    Err(e) => return Err(e),
                };
                if is_id {
                    let id = self.prev.text.clone();
                    proof {
                        lemma_arrays_view_push(arrays@, (None, Some(id)));
                    }
                    arrays.push((None, Some(id)));
                } else if self.token.kind == TokenKind::CloseBracket {
                    proof {
                        lemma_arrays_view_push(arrays@, (None, None));
                    }
                    arrays.push((None, None));
                }
            }
            match self.expect(TokenKind::CloseBracket, "expected closed bracket to match open bracket") {
                Ok(()) => {},
                Err(e) => return Err(e),
            }
        }
        let r = Node {
            line,
            column,
            node: NodeKind::Type { pointers, name, arrays, funptr_args: None, funptr_rets: None },
        };
        assert(s3.array_dims(Seq::empty()) == (Ok::<_, SFailure>(arrays_view(arrays@)), self@));
        assert(name@ == s3.prev.text);
        assert(r.node.view_kind() == SKind::Type { pointers, name: s3.prev.text, arrays: arrays_view(arrays@), funptr_args: None, funptr_rets: None });
        assert(r@.node == SKind::Type { pointers, name: s3.prev.text, arrays: arrays_view(arrays@), funptr_args: None, funptr_rets: None });
        Ok(r)
    }
}

/// The view of a parsing step that gives a list of names.
pub open spec fn strings_out(r: Result<Vec<String>, ParseFailure>) -> Result<Seq<Seq<char>>, SFailure> {
    match r {
        Ok(v) => Ok(strings_view(v@)),
        Err(e) => Err(e@),
    }
}

/// The view of a parsing step that gives named nodes.
pub open spec fn named_out(r: Result<Vec<(String, Node)>, ParseFailure>) -> Result<
    Seq<(Seq<char>, SNode)>,
    SFailure,
> {
    match r {
        Ok(v) => Ok(named_nodes_view(v@)),
        Err(e) => Err(e@),
    }
}

/// The view of hashtags converted to modifiers.
pub open spec fn cast_out<T>(r: Result<Vec<T>, String>) -> Result<Seq<T>, Seq<char>> {
    match r {
        Ok(v) => Ok(v@),
        Err(t) => Err(t@),
    }
}

impl Parser {
    // Top level statements

    /// The hashtags before a top level statement, after `#`: one name or a
    /// parenthesized list.
    #[verifier::loop_isolation(false)]
    pub fn parse_hashtags(&mut self) -> (r: Result<Vec<String>, ParseFailure>)
        requires
            old(self)@.wf(),
        ensures
            (strings_out(r), final(self)@) == old(self)@.parse_hashtags(),
            r is Ok ==> final(self)@.wf() && final(self)@.below(old(self)@),
    {
        let ghost s0 = self@;
        let open = match self.accept(TokenKind::OpenParen) {
            Ok(b) => b,
            Err(e) => return Err(e),
        };
        let mut tags: Vec<String> = Vec::new();
        if open {
            let ghost s1 = self@;
            assert(strings_view(tags@) =~= Seq::empty());
            loop
                invariant
                    self@.wf(),
                    self@.below(s0),
                    s1.hashtag_list(Seq::empty()) == self@.hashtag_list(strings_view(tags@)),
                decreases self@.measure(),
            {
                match self.accept(TokenKind::Identifier) {
                    Ok(_) => {},
                    Err(e) => return Err(e),
                }
                let t = self.prev.text.clone();
                proof {
                    lemma_strings_view_push(tags@, t);
                }
                tags.push(t);
                let close = match self.accept(TokenKind::CloseParen) {
                    Ok(b) => b,
                    Err(e) => return Err(e),
                };
                if close {
                    break;
                }
                match self.expect(
                    TokenKind::Comma,
                    "expected comma or closed parenthesis after identifier in hashtag list",
                ) {
                    Ok(()) => {},
                    Err(e) => return Err(e),
                }
            }
            Ok(tags)
        } else {
            match self.expect(
                TokenKind::Identifier,
                "expected identifier or parenthesis after hashtag (#)",
            ) {
                Ok(()) => {},
                Err(e) => return Err(e),
            }
            let t = self.prev.text.clone();
            proof {
                lemma_strings_view_push(tags@, t);
                assert(strings_view(tags@) =~= Seq::empty());
            }
            tags.push(t);
            Ok(tags)
        }
    }

    /// The modifiers that the hashtags `tags` name, in order, repeats kept. A
    /// hashtag that names no modifier of `T` is not accepted: in place of stopping
    /// the program with "unknown hashtag", this function returns the text of the
    /// first such hashtag as the error, and the parser fails with
    /// `ParseError::UnknownHashtag` of it.
    pub fn cast_hashtags<T: Hashtag>(tags: Vec<String>) -> (r: Result<Vec<T>, String>)
        ensures
            cast_out(r) == spec_cast_hashtags::<T>(strings_view(tags@)),
    {
        let mut casted: Vec<T> = Vec::new();
        let mut i: usize = 0;
        while i < tags.len()
            invariant
                i <= tags.len(),
                spec_cast_hashtags::<T>(strings_view(tags@).take(i as int)) == Ok::<Seq<T>, Seq<char>>(
                    casted@,
                ),
            decreases tags.len() - i,
        {
            assert(strings_view(tags@).take(i + 1).drop_last() =~= strings_view(tags@).take(i as int));
            match T::from_name(&tags[i]) {
                Some(t) => casted.push(t),
                None => {
                    proof {
                        lemma_cast_err_extends::<T>(strings_view(tags@), i + 1);
                    }
                    return Err(tags[i].clone());
                },
            }
            i = i + 1;
        }
        assert(strings_view(tags@).take(i as int) =~= strings_view(tags@));
        Ok(casted)
    }

    /// `use <id>(/<id>)* ([<id>, ...])?`, after `use`.
    #[verifier::loop_isolation(false)]
    pub fn parse_use(&mut self) -> (r: Result<Node, ParseFailure>)
        requires
            old(self)@.wf(),
        ensures
            (out_view(r), final(self)@) == old(self)@.parse_use(),
            r is Ok ==> final(self)@.wf() && final(self)@.below(old(self)@),
    {
        let ghost s0 = self@;
        let line = self.prev.line;
        let column = self.prev.column;
        match self.expect(TokenKind::Identifier, "expected identifier after `use`") {
            Ok(()) => {},
            Err(e) => return Err(e),
        }
        let mut path: Vec<String> = Vec::new();
        let first = self.prev.text.clone();
        proof {
            lemma_strings_view_push(path@, first);
            assert(strings_view(path@) =~= Seq::empty());
        }
        path.push(first);
        let ghost s1 = self@;
        loop
            invariant
                self@.wf(),
                self@.below(s0),
                s1.use_path(seq![s1.prev.text]) == self@.use_path(strings_view(path@)),
            decreases self@.measure(),
        {
            let slash = match self.accept(TokenKind::OpDiv) {
                Ok(b) => b,
                Err(e) => return Err(e),
            };
            if !slash {
                break;
            }
            match self.expect(TokenKind::Identifier, "expected identifier after `/` in `use`") {
                Ok(()) => {},
                Err(e) => return Err(e),
            }
            let seg = self.prev.text.clone();
            proof {
                lemma_strings_view_push(path@, seg);
            }
            path.push(seg);
        }
        let open = match self.accept(TokenKind::OpenBracket) {
            Ok(b) => b,
            Err(e) => return Err(e),
        };
        if !open {
            return Ok(Node { line, column, node: NodeKind::TopUse(path, None) });
        }
        let ghost s3 = self@;
        let mut selections: Vec<String> = Vec::new();
        assert(strings_view(selections@) =~= Seq::empty());
        loop
            invariant
                self@.wf(),
                self@.below(s0),
                s3.use_selection(Seq::empty()) == self@.use_selection(strings_view(selections@)),
            decreases self@.measure(),
        {
            match self.expect(TokenKind::Identifier, "expected identifier in selective `use` statement") {
                Ok(()) => {},
                Err(e) => return Err(e),
            }
            let name = self.prev.text.clone();
            proof {
                lemma_strings_view_push(selections@, name);
            }
            selections.push(name);
            let comma = match self.accept(TokenKind::Comma) {
                Ok(b) => b,
                Err(e) => return Err(e),
            };
            if !comma {
                break;
            }
        }
        match self.expect(
            TokenKind::CloseBracket,
            "expected closed bracket (`]`) to end selective `use` statement",
        ) {
            Ok(()) => {},
            Err(e) => return Err(e),
        }
        Ok(Node { line, column, node: NodeKind::TopUse(path, Some(selections)) })
    }

    /// `<id>: <type>` pairs separated by commas, as long as an identifier comes;
    /// `msg` explains a missing colon.
    #[verifier::loop_isolation(false)]
    fn named_types(&mut self, msg: &'static str) -> (r: Result<Vec<(String, Node)>, ParseFailure>)
        requires
            old(self)@.wf(),
        ensures
            (named_out(r), final(self)@) == old(self)@.named_types(Seq::empty(), msg@),
            r is Ok ==> final(self)@.wf() && final(self)@.within(old(self)@),
    {
        let ghost s0 = self@;
        let mut entries: Vec<(String, Node)> = Vec::new();
        assert(named_nodes_view(entries@) =~= Seq::empty());
        loop
            invariant
                self@.wf(),
                self@.within(s0),
                s0.named_types(Seq::empty(), msg@) == self@.named_types(
                    named_nodes_view(entries@),
                    msg@,
                ),
            decreases self@.measure(),
        {
            let id = match self.accept(TokenKind::Identifier) {
                Ok(b) => b,
                Err(e) => return Err(e),
            };
            if !id {
                break;
            }
            let name = self.prev.text.clone();
            match self.expect(TokenKind::Colon, msg) {
                Ok(()) => {},
                Err(e) => return Err(e),
            }
            let typ = match self.parse_type() {
                Ok(t) => t,
                Err(e) => return Err(e),
            };
            proof {
                lemma_named_nodes_view_push(entries@, (name, typ));
            }
            entries.push((name, typ));
            let comma = match self.accept(TokenKind::Comma) {
                Ok(b) => b,
                Err(e) => return Err(e),
            };
            if !comma {
                break;
            }
        }
        Ok(entries)
    }

    /// `<id>(<params>)(: <type>)? <block>`, after `fun`.
    pub fn parse_fun(&mut self, tags: Vec<FunTags>) -> (r: Result<Node, ParseFailure>)
        requires
            old(self)@.wf(),
        ensures
            (out_view(r), final(self)@) == old(self)@.parse_fun(tags@),
            r is Ok ==> final(self)@.wf() && final(self)@.below(old(self)@),
    {
        let line = self.prev.line;
        let column = self.prev.column;
        match self.expect(TokenKind::Identifier, "expected identifier after `fun`") {
            Ok(()) => {},
            Err(e) => return Err(e),
        }
        let id = self.prev.text.clone();
        match self.expect(TokenKind::OpenParen, "expected open parenthesis after function name") {
            Ok(()) => {},
            Err(e) => return Err(e),
        }
        let params = match self.named_types("expected colon in between parameter ID and its type") {
            Ok(v) => v,
            Err(e) => return Err(e),
        };
        match self.expect(
            TokenKind::CloseParen,
            "expected closed parenthesis after function parameter list",
        ) {
            Ok(()) => {},
            Err(e) => return Err(e),
        }
        let colon = match self.accept(TokenKind::Colon) {
            Ok(b) => b,
            Err(e) => return Err(e),
        };
        let rets = if colon {
            match self.parse_type() {
                Ok(t) => t,
                Err(e) => return Err(e),
            }
        } else {
            Node::get_void_type(line, column)
        };
        let expr = match self.parse_block(true) {
            Ok(b) => b,
            Err(e) => return Err(e),
        };
        Ok(
            Node {
                line,
                column,
                node: NodeKind::TopFun { tags, id, params, rets: Box::new(rets), expr: Box::new(expr) },
            },
        )
    }

    /// `<id>(<fields>)`, after `rec`.
    pub fn parse_rec(&mut self, tags: Vec<RecTags>) -> (r: Result<Node, ParseFailure>)
        requires
            old(self)@.wf(),
        ensures
            (out_view(r), final(self)@) == old(self)@.parse_rec(tags@),
            r is Ok ==> final(self)@.wf() && final(self)@.below(old(self)@),
    {
        let line = self.prev.line;
        let column = self.prev.column;
        match self.expect(TokenKind::Identifier, "expected identifier after `rec`") {
            Ok(()) => {},
            Err(e) => return Err(e),
        }
        let id = self.prev.text.clone();
        match self.expect(TokenKind::OpenParen, "expected open parenthesis after record name") {
            Ok(()) => {},
            Err(e) => return Err(e),
        }
        let fields = match self.named_types("expected colon in between field ID and its type") {
            Ok(v) => v,
            Err(e) => return Err(e),
        };
        match self.expect(TokenKind::CloseParen, "expected closed parenthesis after record field list") {
            Ok(()) => {},
            Err(e) => return Err(e),
        }
        Ok(Node { line, column, node: NodeKind::TopRec { tags, id, fields } })
    }

    /// `<id> = <type>`, after `def`.
    fn parse_def(&mut self, tags: Vec<DefTags>) -> (r: Result<Node, ParseFailure>)
        requires
            old(self)@.wf(),
        ensures
            (out_view(r), final(self)@) == old(self)@.parse_def(tags@),
            r is Ok ==> final(self)@.wf() && final(self)@.below(old(self)@),
    {
        let line = self.prev.line;
        let column = self.prev.column;
        match self.expect(TokenKind::Identifier, "expected identifier after `def`") {
            Ok(()) => {},
            Err(e) => return Err(e),
        }
        let id = self.prev.text.clone();
        match self.expect(TokenKind::Eq, "expected `=` after `def <identifier>`") {
            Ok(()) => {},
            Err(e) => return Err(e),
        }
        match self.parse_type() {
            Ok(typ) => Ok(Node { line, column, node: NodeKind::TopDef { tags, id, typ: Box::new(typ) } }),
            Err(e) => Err(e),
        }
    }

    /// `<id>(<entries>)`, after `tag`.
    #[verifier::loop_isolation(false)]
    fn parse_tag(&mut self, tags: Vec<TagTags>) -> (r: Result<Node, ParseFailure>)
        requires
            old(self)@.wf(),
        ensures
            (out_view(r), final(self)@) == old(self)@.parse_tag(tags@),
            r is Ok ==> final(self)@.wf() && final(self)@.below(old(self)@),
    {
        let ghost s0 = self@;
        let line = self.prev.line;
        let column = self.prev.column;
        match self.expect(TokenKind::Identifier, "expected identifier after `tag`") {
            Ok(()) => {},
            Err(e) => return Err(e),
        }
        let id = self.prev.text.clone();
        match self.expect(TokenKind::OpenParen, "expected open parenthesis after tag name") {
            Ok(()) => {},
            Err(e) => return Err(e),
        }
        let ghost s2 = self@;
        let mut entries: Vec<(String, Option<Box<Node>>)> = Vec::new();
        assert(tag_entries_view(entries@) =~= Seq::empty());
        loop
            invariant
                self@.wf(),
                self@.below(s0),
                s2.tag_entries(Seq::empty()) == self@.tag_entries(tag_entries_view(entries@)),
            decreases self@.measure(),
        {
            let is_id = match self.accept(TokenKind::Identifier) {
                Ok(b) => b,
                Err(e) => return Err(e),
            };
            if !is_id {
                break;
            }
            let entry_id = self.prev.text.clone();
            let eq = match self.accept(TokenKind::Eq) {
                Ok(b) => b,
                Err(e) => return Err(e),
            };
            let value: Option<Box<Node>> = if eq {
                let atom = match self.parse_atom() {
                    Ok(a) => a,
                    Err(e) => return Err(e),
                };
                match atom.node {
                    NodeKind::ExprNumber(_) => Some(Box::new(atom)),
                    _ => {
                        return self.fail(ParseError::ExpectedTokenOfKind(TokenKind::Int), None);
                    },
                }
            } else {
                None
            };
            proof {
                lemma_tag_entries_view_push(entries@, (entry_id, value));
            }
            entries.push((entry_id, value));
            match self.accept(TokenKind::Comma) {
                Ok(_) => {},
                Err(e) => return Err(e),
            }
        }
        match self.expect(TokenKind::CloseParen, "expected closed parenthesis after tag entry list") {
            Ok(()) => {},
            Err(e) => return Err(e),
        }
        Ok(Node { line, column, node: NodeKind::TopTag { tags, id, entries } })
    }

    /// `<id>(<entries>)`, after `tag rec`.
    #[verifier::loop_isolation(false)]
    fn parse_tagrec(&mut self, tags: Vec<TagRecTags>) -> (r: Result<Node, ParseFailure>)
        requires
            old(self)@.wf(),
        ensures
            (out_view(r), final(self)@) == old(self)@.parse_tagrec(tags@),
            r is Ok ==> final(self)@.wf() && final(self)@.below(old(self)@),
    {
        let ghost s0 = self@;
        let line = self.prev.line;
        let column = self.prev.column;
        match self.expect(TokenKind::Identifier, "expected identifier after `tag`") {
            Ok(()) => {},
            Err(e) => return Err(e),
        }
        let id = self.prev.text.clone();
        match self.expect(TokenKind::OpenParen, "expected open parenthesis after tag name") {
            Ok(()) => {},
            Err(e) => return Err(e),
        }
        let ghost s2 = self@;
        let mut entries: Vec<(String, Vec<(String, Node)>)> = Vec::new();
        assert(tag_rec_entries_view(entries@) =~= Seq::empty());
        loop
            invariant
                self@.wf(),
                self@.below(s0),
                s2.tagrec_entries(Seq::empty()) == self@.tagrec_entries(tag_rec_entries_view(entries@)),
            decreases self@.measure(),
        {
            let is_id = match self.accept(TokenKind::Identifier) {
                Ok(b) => b,
                Err(e) => return Err(e),
            };
            if !is_id {
                break;
            }
            let entry_id = self.prev.text.clone();
            let open = match self.accept(TokenKind::OpenParen) {
                Ok(b) => b,
                Err(e) => return Err(e),
            };
            let fields: Vec<(String, Node)> = if open {
                let fields = match self.named_types("expected colon in between field ID and its type") {
                    Ok(v) => v,
                    Err(e) => return Err(e),
                };
                match self.expect(
                    TokenKind::CloseParen,
                    "expected closed parenthesis after `tag rec` entry list",
                ) {
                    Ok(()) => {},
                    Err(e) => return Err(e),
                }
                fields
            } else {
                let v: Vec<(String, Node)> = Vec::new();
                assert(named_nodes_view(v@) =~= Seq::empty());
                v
            };
            proof {
                lemma_tag_rec_entries_view_push(entries@, (entry_id, fields));
            }
            entries.push((entry_id, fields));
            match self.accept(TokenKind::Comma) {
                Ok(_) => {},
                Err(e) => return Err(e),
            }
        }
        match self.expect(TokenKind::CloseParen, "expected closed parenthesis after tag entry list") {
            Ok(()) => {},
            Err(e) => return Err(e),
        }
        Ok(Node { line, column, node: NodeKind::TopTagRec { tags, id, entries } })
    }

    /// `<id>(<params>)`, after `pragma`.
    pub fn parse_pragma(&mut self) -> (r: Result<Node, ParseFailure>)
        requires
            old(self)@.wf(),
        ensures
            (out_view(r), final(self)@) == old(self)@.parse_pragma(),
            r is Ok ==> final(self)@.wf() && final(self)@.below(old(self)@),
    {
        proof {
            lemma_nodes_view_empty();
        }
        let line = self.prev.line;
        let column = self.prev.column;
        match self.expect(TokenKind::Identifier, "expected identifier after `pragma`") {
            Ok(()) => {},
            Err(e) => return Err(e),
        }
        let id = self.prev.text.clone();
        match self.expect(TokenKind::OpenParen, "expected open parenthesis after pragma identifier") {
            Ok(()) => {},
            Err(e) => return Err(e),
        }
        let close = match self.accept(TokenKind::CloseParen) {
            Ok(b) => b,
            Err(e) => return Err(e),
        };
        let params = if close {
            Vec::new()
        } else {
            match self.parse_expression_list() {
                Ok(v) => v,
                Err(e) => return Err(e),
            }
        };
        match self.expect(
            TokenKind::CloseParen,
            "expected closed parenthesis after pragma argument list",
        ) {
            Ok(()) => {},
            Err(e) => return Err(e),
        }
        Ok(Node { line, column, node: NodeKind::TopPragma { id, params } })
    }

    /// What follows the hashtags `tags`: a `fun`, `rec`, `def`, `tag` or `tag rec`.
    #[verifier::rlimit(50)]
    fn tagged_item(&mut self, tags: Vec<String>) -> (r: Result<Node, ParseFailure>)
        requires
            old(self)@.wf(),
        ensures
            (out_view(r), final(self)@) == old(self)@.tagged_item(strings_view(tags@)),
            r is Ok ==> final(self)@.wf() && final(self)@.below(old(self)@),
    {
        let k = self.token.kind;
        if !(k == TokenKind::KwFun || k == TokenKind::KwRec || k == TokenKind::KwDef || k
            == TokenKind::KwTag) {
            return self.fail(
                ParseError::UnexpectedToken(self.token.duplicate()),
                Some("hashtags can only be applied to [fun, rec, def, mac, tag, tag rec]"),
            );
        }
        match self.advance() {
            Ok(_) => {},
            Err(e) => return Err(e),
        }
        if k == TokenKind::KwFun {
            match Parser::cast_hashtags::<FunTags>(tags) {
                Ok(ts) => self.parse_fun(ts),
                Err(t) => self.fail(ParseError::UnknownHashtag(t), None),
            }
        } else if k == TokenKind::KwRec {
            match Parser::cast_hashtags::<RecTags>(tags) {
                Ok(ts) => self.parse_rec(ts),
                Err(t) => self.fail(ParseError::UnknownHashtag(t), None),
            }
        } else if k == TokenKind::KwDef {
            match Parser::cast_hashtags::<DefTags>(tags) {
                Ok(ts) => self.parse_def(ts),
                Err(t) => self.fail(ParseError::UnknownHashtag(t), None),
            }
        } else {
            let is_rec = match self.accept(TokenKind::KwRec) {
                Ok(b) => b,
                Err(e) => return Err(e),
            };
            if is_rec {
                match Parser::cast_hashtags::<TagRecTags>(tags) {
                    Ok(ts) => self.parse_tagrec(ts),
                    Err(t) => self.fail(ParseError::UnknownHashtag(t), None),
                }
            } else {
                match Parser::cast_hashtags::<TagTags>(tags) {
                    Ok(ts) => self.parse_tag(ts),
                    Err(t) => self.fail(ParseError::UnknownHashtag(t), None),
                }
            }
        }
    }

    /// A top level statement.
    pub fn parse_top_level_statement(&mut self) -> (r: Result<Node, ParseFailure>)
        requires
            old(self)@.wf(),
        ensures
            (out_view(r), final(self)@) == old(self)@.parse_top_level_statement(),
            r is Ok ==> final(self)@.wf() && final(self)@.below(old(self)@),
    {
        let k = self.token.kind;
        let starts = k == TokenKind::KwUse || k == TokenKind::At || k == TokenKind::Hashtag || k
            == TokenKind::KwFun || k == TokenKind::KwRec || k == TokenKind::KwDef || k
            == TokenKind::KwTag || k == TokenKind::KwRaw || k == TokenKind::KwPragma || k
            == TokenKind::KwVar || k == TokenKind::KwLet;
        if !starts {
            return self.fail(ParseError::UnexpectedToken(self.token.duplicate()), None);
        }
        match self.advance() {
            Ok(_) => {},
            Err(e) => return Err(e),
        }
        if k == TokenKind::KwUse {
            self.parse_use()
        } else if k == TokenKind::At {
            self.parse_mac_invoke()
        } else if k == TokenKind::Hashtag {
            match self.parse_hashtags() {
                Ok(tags) => self.tagged_item(tags),
                Err(e) => Err(e),
            }
        } else if k == TokenKind::KwFun {
            self.parse_fun(Vec::new())
        } else if k == TokenKind::KwRec {
            self.parse_rec(Vec::new())
        } else if k == TokenKind::KwDef {
            self.parse_def(Vec::new())
        } else if k == TokenKind::KwTag {
            let is_rec = match self.accept(TokenKind::KwRec) {
                Ok(b) => b,
                Err(e) => return Err(e),
            };
            if is_rec {
                self.parse_tagrec(Vec::new())
            } else {
                self.parse_tag(Vec::new())
            }
        } else if k == TokenKind::KwRaw {
            self.parse_raw()
        } else if k == TokenKind::KwPragma {
            self.parse_pragma()
        } else {
            let it = if k == TokenKind::KwLet {
                self.parse_let()
            } else {
                self.parse_var()
            };
            match it {
                Ok(it) => Ok(
                    Node { line: it.line, column: it.line, node: NodeKind::StatExpr(Box::new(it)) },
                ),
                Err(e) => Err(e),
            }
        }
    }

    /// Parses a whole program; with `add_implicit_use_std` it starts with `use std`.
    #[verifier::loop_isolation(false)]
    #[verifier::rlimit(50)]
    pub fn parse(&mut self, add_implicit_use_std: bool) -> (r: Result<Node, ParseFailure>)
        requires
            old(self)@.wf(),
        ensures
            (out_view(r), final(self)@) == old(self)@.parse(add_implicit_use_std),
    {
        let mut nodes: Vec<Node> = Vec::new();
        proof {
            lemma_nodes_view_empty();
        }
        if add_implicit_use_std {
            let mut path: Vec<String> = Vec::new();
            let std = "std".to_owned();
            proof {
                lemma_strings_view_push(path@, std);
                assert(strings_view(path@) =~= Seq::empty());
            }
            path.push(std);
            let n = Node { line: 0, column: 0, node: NodeKind::TopUse(path, None) };
            proof {
                assert(n.node.view_kind() == SKind::TopUse(seq!["std"@], None));
                lemma_nodes_view_push(nodes@, n);
            }
            nodes.push(n);
        }
        match self.advance() {
            Ok(_) => {},
            Err(e) => return Err(e),
        }
        let ghost s1 = self@;
        let ghost first = nodes_view(nodes@);
        while !self.done
            invariant
                self@.wf(),
                s1.program_loop(first) == self@.program_loop(nodes_view(nodes@)),
            decreases self@.measure(),
        {
            let n = match self.parse_top_level_statement() {
                Ok(n) => n,
                Err(e) => return Err(e),
            };
            proof {
                lemma_nodes_view_push(nodes@, n);
            }
            nodes.push(n);
        }
        Ok(Node { line: 0, column: 0, node: NodeKind::Program(nodes) })
    }
}

} // verus!
