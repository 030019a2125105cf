//! The line classifier: one token for each line of a document, and one more
//! for its end.

use crate::lexer::common_literals::{
    LEFT_BRACE_VALUE, PORTS_PREFIX, PORTS_TOKEN_VALUE, PORT_PREFIX, RIGHT_BRACE_VALUE,
    SEPARATOR_VALUE, TARGET_PORT_PREFIX,
};
use crate::lexer::deployment_literals::{
    CPU_PREFIX, DEPLOY_APP_PREFIX, ENV_PREFIX, ENV_TOKEN_VALUE, IMAGE_PREFIX, LIMITS_PREFIX,
    LIMITS_TOKEN_VALUE, MEMORY_PREFIX, NAMESPACE_PREFIX, REPLICAS_PREFIX, REQUESTS_PREFIX,
    REQUESTS_TOKEN_VALUE, RESOURCES_PREFIX, RESOURCES_TOKEN_VALUE, SIZE_PREFIX, STORAGE_PREFIX,
    STORAGE_TOKEN_VALUE, VOLUME_PREFIX,
};
use crate::lexer::text::{
    drop_suffix, equals, find, lines, position, starts_with, to_chars, to_string, trim,
    trim_chars, unwrap_value, unwrapped, without_suffix,
};
use crate::lexer::token::TokenType;
use vstd::prelude::*;
use vstd::slice::slice_subrange;
use vstd::std_specs::cmp::PartialEqSpecImpl;

verus! {

/// A source of tokens that hands them out one at a time.
pub trait LexerInterface {
    /// The next token of the sequence.
    fn next_token(&mut self) -> Token;
}

/// One classified line: its category, the value taken from it, and the
/// number of the line, counted from 1.
#[derive(Debug)]
pub struct Token {
    pub token_type: TokenType,
    pub value: String,
    pub line_number: usize,
}

/// What a [`Token`] stands for.
pub struct TokenView {
    pub token_type: TokenType,
    pub value: Seq<char>,
    pub line_number: nat,
}

impl View for Token {
    type V = TokenView;

    open spec fn view(&self) -> TokenView {
        TokenView {
            token_type: self.token_type,
            value: self.value@,
            line_number: self.line_number as nat,
        }
    }
}

impl Clone for Token {
    /// A token with the same category, value and line number.
    fn clone(&self) -> (token: Token)
        ensures
            token == *self,
    {
        Token {
            token_type: self.token_type,
            value: self.value.clone(),
            line_number: self.line_number,
        }
    }
}

impl PartialEq for Token {
    /// Two tokens are equal when their categories, their values and their
    /// line numbers are.
    fn eq(&self, other: &Token) -> (equal: bool) {
        self.token_type == other.token_type && self.value == other.value && self.line_number
            == other.line_number
    }
}

impl PartialEqSpecImpl for Token {
    open spec fn obeys_eq_spec() -> bool {
        true
    }

    open spec fn eq_spec(&self, other: &Token) -> bool {
        self@ == other@
    }
}

/// The token that stands for the end of the input, at line `line_number`.
pub open spec fn end_of_input(line_number: nat) -> TokenView {
    TokenView { token_type: TokenType::TokenEOF, value: Seq::empty(), line_number }
}

/// The name that a resource header declares: what follows the header marker,
/// without one opening brace at its end and without surrounding white space.
pub open spec fn resource_name(text: Seq<char>) -> Seq<char>
    recommends
        DEPLOY_APP_PREFIX@.is_prefix_of(text),
{
    trim(without_suffix(text.skip(DEPLOY_APP_PREFIX@.len() as int), LEFT_BRACE_VALUE@))
}

/// The value of a scalar directive: what follows the first colon of the line,
/// without surrounding white space and then without what wraps it: the
/// semicolons and braces at its two ends, and one layer of double quotes. A
/// line without a colon has the empty value.
pub open spec fn scalar_value(line: Seq<char>) -> Seq<char> {
    let k = position(line, ':');
    if k < line.len() {
        unwrapped(trim(line.skip((k + 1) as int)))
    } else {
        Seq::empty()
    }
}

/// The category and the value of a trimmed line. The rules are tried in
/// order, and the first that applies decides.
pub open spec fn classify(text: Seq<char>) -> (TokenType, Seq<char>) {
    if text == SEPARATOR_VALUE@ {
        (TokenType::TokenSeparator, Seq::empty())
    } else if DEPLOY_APP_PREFIX@.is_prefix_of(text) {
        (TokenType::TokenDeployApp, resource_name(text))
    } else if NAMESPACE_PREFIX@.is_prefix_of(text) {
        (TokenType::TokenNamespace, scalar_value(text))
    } else if REPLICAS_PREFIX@.is_prefix_of(text) {
        (TokenType::TokenReplicas, scalar_value(text))
    } else if IMAGE_PREFIX@.is_prefix_of(text) {
        (TokenType::TokenImage, scalar_value(text))
    } else if MEMORY_PREFIX@.is_prefix_of(text) {
        (TokenType::TokenMemory, scalar_value(text))
    } else if CPU_PREFIX@.is_prefix_of(text) {
        (TokenType::TokenCPU, scalar_value(text))
    } else if VOLUME_PREFIX@.is_prefix_of(text) {
        (TokenType::TokenVolume, scalar_value(text))
    } else if SIZE_PREFIX@.is_prefix_of(text) {
        (TokenType::TokenSize, scalar_value(text))
    } else if PORT_PREFIX@.is_prefix_of(text) {
        (TokenType::TokenPort, scalar_value(text))
    } else if TARGET_PORT_PREFIX@.is_prefix_of(text) {
        (TokenType::TokenTargetPort, scalar_value(text))
    } else if ENV_PREFIX@.is_prefix_of(text) {
        (TokenType::TokenEnv, ENV_TOKEN_VALUE@)
    } else if PORTS_PREFIX@.is_prefix_of(text) {
        (TokenType::TokenPorts, PORTS_TOKEN_VALUE@)
    } else if RESOURCES_PREFIX@.is_prefix_of(text) {
        (TokenType::TokenResources, RESOURCES_TOKEN_VALUE@)
    } else if LIMITS_PREFIX@.is_prefix_of(text) {
        (TokenType::TokenLimits, LIMITS_TOKEN_VALUE@)
    } else if REQUESTS_PREFIX@.is_prefix_of(text) {
        (TokenType::TokenRequests, REQUESTS_TOKEN_VALUE@)
    } else if STORAGE_PREFIX@.is_prefix_of(text) {
        (TokenType::TokenStorage, STORAGE_TOKEN_VALUE@)
    } else if text == RIGHT_BRACE_VALUE@ {
        (TokenType::TokenRBrace, Seq::empty())
    } else {
        (TokenType::TokenIdentifier, text)
    }
}

/// Whether `text` fits one of the line patterns: it is the separator or the
/// closing brace, or it begins with the marker of a resource header, of a
/// scalar directive or of a block.
pub open spec fn is_pattern(text: Seq<char>) -> bool {
    ||| text == SEPARATOR_VALUE@
    ||| text == RIGHT_BRACE_VALUE@
    ||| DEPLOY_APP_PREFIX@.is_prefix_of(text)
    ||| NAMESPACE_PREFIX@.is_prefix_of(text)
    ||| REPLICAS_PREFIX@.is_prefix_of(text)
    ||| IMAGE_PREFIX@.is_prefix_of(text)
    ||| MEMORY_PREFIX@.is_prefix_of(text)
    ||| CPU_PREFIX@.is_prefix_of(text)
    ||| VOLUME_PREFIX@.is_prefix_of(text)
    ||| SIZE_PREFIX@.is_prefix_of(text)
    ||| PORT_PREFIX@.is_prefix_of(text)
    ||| TARGET_PORT_PREFIX@.is_prefix_of(text)
    ||| ENV_PREFIX@.is_prefix_of(text)
    ||| PORTS_PREFIX@.is_prefix_of(text)
    ||| RESOURCES_PREFIX@.is_prefix_of(text)
    ||| LIMITS_PREFIX@.is_prefix_of(text)
    ||| REQUESTS_PREFIX@.is_prefix_of(text)
    ||| STORAGE_PREFIX@.is_prefix_of(text)
}

/// Whether `kind` is a category that a line can have: the separator, the
/// closing brace, the resource header, a scalar directive, a block opener or
/// the identifier.
pub open spec fn is_line_kind(kind: TokenType) -> bool {
    ||| kind == TokenType::TokenSeparator
    ||| kind == TokenType::TokenRBrace
    ||| kind == TokenType::TokenDeployApp
    ||| kind == TokenType::TokenNamespace
    ||| kind == TokenType::TokenReplicas
    ||| kind == TokenType::TokenImage
    ||| kind == TokenType::TokenMemory
    ||| kind == TokenType::TokenCPU
    ||| kind == TokenType::TokenVolume
    ||| kind == TokenType::TokenSize
    ||| kind == TokenType::TokenPort
    ||| kind == TokenType::TokenTargetPort
    ||| kind == TokenType::TokenEnv
    ||| kind == TokenType::TokenPorts
    ||| kind == TokenType::TokenResources
    ||| kind == TokenType::TokenLimits
    ||| kind == TokenType::TokenRequests
    ||| kind == TokenType::TokenStorage
    ||| kind == TokenType::TokenIdentifier
}

/// The token of a trimmed line that stands at line `line_number`.
pub open spec fn scan(text: Seq<char>, line_number: nat) -> TokenView {
    TokenView { token_type: classify(text).0, value: classify(text).1, line_number }
}

/// The tokens of a document: one for each of its lines, trimmed and then
/// classified, and a last one for the end of the input. A carriage return
/// before a line feed is white space at the end of its line, and goes with
/// the trimming.
pub open spec fn tokenize(text: Seq<char>) -> Seq<TokenView> {
    let rows = lines(text);
    Seq::new(
        rows.len() + 1,
        |i: int|
            if i < rows.len() {
                scan(trim(rows[i]), (i + 1) as nat)
            } else {
                end_of_input(rows.len() + 1)
            },
    )
}

/// The value of the scalar directive in `line`.
fn value_of(line: &[char]) -> (value: String)
    ensures
        value@ == scalar_value(line@),
{
    let k = find(line, ':');
    if k < line.len() {
        let rest = slice_subrange(line, k + 1, line.len());
        to_string(unwrap_value(trim_chars(rest)))
    } else {
        String::new()
    }
}

/// The name declared by the resource header in `text`.
fn name_of(text: &[char]) -> (name: String)
    requires
        DEPLOY_APP_PREFIX@.is_prefix_of(text@),
    ensures
        name@ == resource_name(text@),
{
    let n = DEPLOY_APP_PREFIX.unicode_len();
    let rest = slice_subrange(text, n, text.len());
    to_string(trim_chars(drop_suffix(rest, LEFT_BRACE_VALUE)))
}

/// The category and the value of the trimmed line `text`.
fn classify_line(text: &[char]) -> (r: (TokenType, String))
    ensures
        r.0 == classify(text@).0,
        r.1@ == classify(text@).1,
{
    if equals(text, SEPARATOR_VALUE) {
        (TokenType::TokenSeparator, String::new())
    } else if starts_with(text, DEPLOY_APP_PREFIX) {
        (TokenType::TokenDeployApp, name_of(text))
    } else if starts_with(text, NAMESPACE_PREFIX) {
        (TokenType::TokenNamespace, value_of(text))
    } else if starts_with(text, REPLICAS_PREFIX) {
        (TokenType::TokenReplicas, value_of(text))
    } else if starts_with(text, IMAGE_PREFIX) {
        (TokenType::TokenImage, value_of(text))
    } else if starts_with(text, MEMORY_PREFIX) {
        (TokenType::TokenMemory, value_of(text))
    } else if starts_with(text, CPU_PREFIX) {
        (TokenType::TokenCPU, value_of(text))
    } else if starts_with(text, VOLUME_PREFIX) {
        (TokenType::TokenVolume, value_of(text))
    } else if starts_with(text, SIZE_PREFIX) {
        (TokenType::TokenSize, value_of(text))
    } else if starts_with(text, PORT_PREFIX) {
        (TokenType::TokenPort, value_of(text))
    } else if starts_with(text, TARGET_PORT_PREFIX) {
        (TokenType::TokenTargetPort, value_of(text))
    } else if starts_with(text, ENV_PREFIX) {
        (TokenType::TokenEnv, ENV_TOKEN_VALUE.to_owned())
    } else if starts_with(text, PORTS_PREFIX) {
        (TokenType::TokenPorts, PORTS_TOKEN_VALUE.to_owned())
    } else if starts_with(text, RESOURCES_PREFIX) {
        (TokenType::TokenResources, RESOURCES_TOKEN_VALUE.to_owned())
    } else if starts_with(text, LIMITS_PREFIX) {
        (TokenType::TokenLimits, LIMITS_TOKEN_VALUE.to_owned())
    } else if starts_with(text, REQUESTS_PREFIX) {
        (TokenType::TokenRequests, REQUESTS_TOKEN_VALUE.to_owned())
    } else if starts_with(text, STORAGE_PREFIX) {
        (TokenType::TokenStorage, STORAGE_TOKEN_VALUE.to_owned())
    } else if equals(text, RIGHT_BRACE_VALUE) {
        (TokenType::TokenRBrace, String::new())
    } else {
        (TokenType::TokenIdentifier, to_string(text))
    }
}

/// Extracts the value of the scalar directive in `line`.
pub fn parse_string_value(line: &str) -> (value: String)
    ensures
        value@ == scalar_value(line@),
{
    let chars = to_chars(line);
    value_of(chars.as_slice())
}


/// What a [`Lexer`] stands for: the tokens of its document, the number of
/// tokens that were read, and the line number that the end of the input has.
pub struct LexerView {
    pub tokens: Seq<TokenView>,
    pub cursor: nat,
    pub line_number: nat,
}

impl LexerView {
    /// The state of a lexer that was made for `text` and has read nothing.
    pub open spec fn fresh(text: Seq<char>) -> LexerView {
        LexerView { tokens: tokenize(text), cursor: 0, line_number: lines(text).len() + 1 }
    }

    /// Whether the state is one that a lexer of some document goes through:
    /// the cursor is within the tokens or just behind them, the tokens are
    /// numbered from 1 without a gap, the last of them is the end of the
    /// input, and no other is.
    pub open spec fn wf(self) -> bool {
        &&& self.cursor <= self.tokens.len()
        &&& self.line_number == self.tokens.len()
        &&& self.tokens.len() >= 1
        &&& self.tokens.last() == end_of_input(self.line_number)
        &&& forall|i: int|
            0 <= i < self.tokens.len() ==> (#[trigger] self.tokens[i]).line_number == i + 1
        &&& forall|i: int|
            0 <= i < self.tokens.len() - 1 ==> (#[trigger] self.tokens[i]).token_type
                != TokenType::TokenEOF
    }

    /// The token that the next read returns: the token under the cursor, or
    /// the end of the input once the cursor is behind the tokens.
    pub open spec fn current(self) -> TokenView {
        if self.cursor < self.tokens.len() {
            self.tokens[self.cursor as int]
        } else {
            end_of_input(self.line_number)
        }
    }

    /// The state after the next read: the cursor moves on by one token, and
    /// stays where it is once it is behind the tokens.
    pub open spec fn advance(self) -> LexerView {
        if self.cursor < self.tokens.len() {
            LexerView { cursor: self.cursor + 1, ..self }
        } else {
            self
        }
    }

    /// The state after `n` reads.
    pub open spec fn advance_by(self, n: nat) -> LexerView
        decreases n,
    {
        if n == 0 {
            self
        } else {
            self.advance().advance_by((n - 1) as nat)
        }
    }
}

/// A lexer for one document. It classifies every line when it is made, and
/// then hands the tokens out in order.
#[derive(Debug)]
pub struct Lexer {
    tokens: Vec<Token>,
    pos: usize,
    line_number: usize,
}

impl View for Lexer {
    type V = LexerView;

    closed spec fn view(&self) -> LexerView {
        LexerView {
            tokens: Seq::new(self.tokens@.len(), |i: int| self.tokens@[i]@),
            cursor: self.pos as nat,
            line_number: self.line_number as nat,
        }
    }
}

impl Lexer {
    /// Makes the lexer of the document `input`: all of its tokens are there,
    /// and none has been read.
    pub fn new(input: &str) -> (lexer: Lexer)
        ensures
            lexer@ == LexerView::fresh(input@),
            lexer@.wf(),
    {
        let mut chars = to_chars(input);
        // The buffer takes one more character, so the text is shorter than
        // `usize::MAX` and the number of the line behind its last line fits.
        chars.push('\n');
        assert(chars.len() == input@.len() + 1);
        chars.pop();
        assert(chars@ == input@);
        let mut lexer = Lexer { tokens: Vec::new(), pos: 0, line_number: 1 };
        lexer.tokenize(chars.as_slice());
        proof {
            lemma_fresh_wf(input@);
        }
        lexer
    }

    /// Appends the tokens of `text`, the one for the end of the input
    /// included.
    fn tokenize(&mut self, text: &[char])
        requires
            old(self).tokens@.len() == 0,
            old(self).line_number == 1,
            text@.len() < usize::MAX,
        ensures
            final(self)@ == (LexerView { cursor: old(self)@.cursor, ..LexerView::fresh(text@) }),
    {
        let ghost cursor = self@.cursor;
        let ghost mut done: Seq<Seq<char>> = Seq::empty();
        let mut start: usize = 0;
        assert(text@.skip(0) == text@);
        while start < text.len()
            invariant
                start <= text.len() < usize::MAX,
                self@.cursor == cursor,
                self.line_number == done.len() + 1,
                self.tokens@.len() == done.len() <= start,
                lines(text@) == done + lines(text@.skip(start as int)),
                forall|i: int|
                    0 <= i < done.len() ==> (#[trigger] self.tokens@[i])@ == scan(
                        trim(done[i]),
                        (i + 1) as nat,
                    ),
            decreases text.len() - start,
        {
            let rest = slice_subrange(text, start, text.len());
            let k = find(rest, '\n');
            let line = slice_subrange(rest, 0, k);
            let token = self.scan_line(trim_chars(line));
            self.tokens.push(token);
            self.line_number += 1;
            proof {
                done = done.push(line@);
                if k < rest.len() {
                    assert(rest@.skip(k + 1) == text@.skip(start + k + 1));
                } else {
                    assert(line@ == rest@);
                }
            }
            start = if k < rest.len() {
                start + k + 1
            } else {
                text.len()
            };
        }
        self.tokens.push(
            Token {
                token_type: TokenType::TokenEOF,
                value: String::new(),
                line_number: self.line_number,
            },
        );
        assert(self@.tokens == tokenize(text@));
    }

    /// The token of the trimmed line `text`, numbered with the line that the
    /// lexer stands at.
    fn scan_line(&self, text: &[char]) -> (token: Token)
        ensures
            token@ == scan(text@, self@.line_number),
    {
        let (token_type, value) = classify_line(text);
        Token { token_type, value, line_number: self.line_number }
    }

    /// Classifies the trimmed line `text`. The token is numbered with the
    /// line that the lexer stands at.
    pub fn scan_token(&self, text: &str) -> (token: Token)
        ensures
            token@ == scan(text@, self@.line_number),
    {
        let chars = to_chars(text);
        self.scan_line(chars.as_slice())
    }
}

impl LexerInterface for Lexer {
    /// Reads the next token. The tokens of the document come in order; once
    /// they are used up, every read gives a new token for the end of the
    /// input and leaves the lexer as it is.
    fn next_token(&mut self) -> (token: Token)
        ensures
            token@ == old(self)@.current(),
            final(self)@ == old(self)@.advance(),
            old(self)@.wf() ==> final(self)@.wf(),
    {
        if self.pos < self.tokens.len() {
            let token = self.tokens[self.pos].clone();
            self.pos += 1;
            token
        } else {
            Token {
                token_type: TokenType::TokenEOF,
                value: String::new(),
                line_number: self.line_number,
            }
        }
    }
}

/// The tokens of a document are one more than its lines. They are numbered
/// from 1 without a gap, so the numbers strictly increase; the last token is
/// the end of the input, and no other is.
pub proof fn lemma_tokenize(text: Seq<char>)
    ensures
        tokenize(text).len() == lines(text).len() + 1,
        tokenize(text).last() == end_of_input(lines(text).len() + 1),
        forall|i: int|
            0 <= i < tokenize(text).len() ==> (#[trigger] tokenize(text)[i]).line_number == i + 1,
        forall|i: int|
            0 <= i < lines(text).len() ==> (#[trigger] tokenize(text)[i]).token_type
                != TokenType::TokenEOF,
{
}

/// A marker that begins a text gives the text its characters. Those at the
/// indices 0, 2 and 4 tell any two markers apart.
proof fn lemma_prefix_chars(marker: Seq<char>, text: Seq<char>)
    requires
        marker.is_prefix_of(text),
    ensures
        marker.len() <= text.len(),
        marker.len() > 0 ==> text[0] == marker[0],
        marker.len() > 2 ==> text[2] == marker[2],
        marker.len() > 4 ==> text[4] == marker[4],
{
    assert(text.subrange(0, marker.len() as int) == marker);
}

/// The line patterns exclude one another, so each of them gives its category
/// and its value whatever the order of the rules: the separator and the
/// closing brace by the whole line, the others by the beginning of the line.
/// A line that fits no pattern is an identifier, with the line as its value.
pub proof fn lemma_classify(text: Seq<char>)
    ensures
        text == SEPARATOR_VALUE@ ==> classify(text) == (
            TokenType::TokenSeparator,
            Seq::<char>::empty(),
        ),
        DEPLOY_APP_PREFIX@.is_prefix_of(text) ==> classify(text) == (
            TokenType::TokenDeployApp,
            resource_name(text),
        ),
        NAMESPACE_PREFIX@.is_prefix_of(text) ==> classify(text) == (
            TokenType::TokenNamespace,
            scalar_value(text),
        ),
        REPLICAS_PREFIX@.is_prefix_of(text) ==> classify(text) == (
            TokenType::TokenReplicas,
            scalar_value(text),
        ),
        IMAGE_PREFIX@.is_prefix_of(text) ==> classify(text) == (
            TokenType::TokenImage,
            scalar_value(text),
        ),
        MEMORY_PREFIX@.is_prefix_of(text) ==> classify(text) == (
            TokenType::TokenMemory,
            scalar_value(text),
        ),
        CPU_PREFIX@.is_prefix_of(text) ==> classify(text) == (
            TokenType::TokenCPU,
            scalar_value(text),
        ),
        VOLUME_PREFIX@.is_prefix_of(text) ==> classify(text) == (
            TokenType::TokenVolume,
            scalar_value(text),
        ),
        SIZE_PREFIX@.is_prefix_of(text) ==> classify(text) == (
            TokenType::TokenSize,
            scalar_value(text),
        ),
        PORT_PREFIX@.is_prefix_of(text) ==> classify(text) == (
            TokenType::TokenPort,
            scalar_value(text),
        ),
        TARGET_PORT_PREFIX@.is_prefix_of(text) ==> classify(text) == (
            TokenType::TokenTargetPort,
            scalar_value(text),
        ),
        ENV_PREFIX@.is_prefix_of(text) ==> classify(text) == (
            TokenType::TokenEnv,
            ENV_TOKEN_VALUE@,
        ),
        PORTS_PREFIX@.is_prefix_of(text) ==> classify(text) == (
            TokenType::TokenPorts,
            PORTS_TOKEN_VALUE@,
        ),
        RESOURCES_PREFIX@.is_prefix_of(text) ==> classify(text) == (
            TokenType::TokenResources,
            RESOURCES_TOKEN_VALUE@,
        ),
        LIMITS_PREFIX@.is_prefix_of(text) ==> classify(text) == (
            TokenType::TokenLimits,
            LIMITS_TOKEN_VALUE@,
        ),
        REQUESTS_PREFIX@.is_prefix_of(text) ==> classify(text) == (
            TokenType::TokenRequests,
            REQUESTS_TOKEN_VALUE@,
        ),
        STORAGE_PREFIX@.is_prefix_of(text) ==> classify(text) == (
            TokenType::TokenStorage,
            STORAGE_TOKEN_VALUE@,
        ),
        text == RIGHT_BRACE_VALUE@ ==> classify(text) == (
            TokenType::TokenRBrace,
            Seq::<char>::empty(),
        ),
        !is_pattern(text) ==> classify(text) == (TokenType::TokenIdentifier, text),
{
    reveal_strlit("---");
    reveal_strlit("}");
    reveal_strlit("deploy app");
    reveal_strlit("namespace:");
    reveal_strlit("replicas:");
    reveal_strlit("image:");
    reveal_strlit("memory:");
    reveal_strlit("cpu:");
    reveal_strlit("volume:");
    reveal_strlit("size:");
    reveal_strlit("port:");
    reveal_strlit("targetPort:");
    reveal_strlit("env {");
    reveal_strlit("ports {");
    reveal_strlit("resources {");
    reveal_strlit("limits {");
    reveal_strlit("requests {");
    reveal_strlit("storage {");
    if DEPLOY_APP_PREFIX@.is_prefix_of(text) {
        lemma_prefix_chars(DEPLOY_APP_PREFIX@, text);
    }
    if NAMESPACE_PREFIX@.is_prefix_of(text) {
        lemma_prefix_chars(NAMESPACE_PREFIX@, text);
    }
    if REPLICAS_PREFIX@.is_prefix_of(text) {
        lemma_prefix_chars(REPLICAS_PREFIX@, text);
    }
    if IMAGE_PREFIX@.is_prefix_of(text) {
        lemma_prefix_chars(IMAGE_PREFIX@, text);
    }
    if MEMORY_PREFIX@.is_prefix_of(text) {
        lemma_prefix_chars(MEMORY_PREFIX@, text);
    }
    if CPU_PREFIX@.is_prefix_of(text) {
        lemma_prefix_chars(CPU_PREFIX@, text);
    }
    if VOLUME_PREFIX@.is_prefix_of(text) {
        lemma_prefix_chars(VOLUME_PREFIX@, text);
    }
    if SIZE_PREFIX@.is_prefix_of(text) {
        lemma_prefix_chars(SIZE_PREFIX@, text);
    }
    if PORT_PREFIX@.is_prefix_of(text) {
        lemma_prefix_chars(PORT_PREFIX@, text);
    }
    if TARGET_PORT_PREFIX@.is_prefix_of(text) {
        lemma_prefix_chars(TARGET_PORT_PREFIX@, text);
    }
    if ENV_PREFIX@.is_prefix_of(text) {
        lemma_prefix_chars(ENV_PREFIX@, text);
    }
    if PORTS_PREFIX@.is_prefix_of(text) {
        lemma_prefix_chars(PORTS_PREFIX@, text);
    }
    if RESOURCES_PREFIX@.is_prefix_of(text) {
        lemma_prefix_chars(RESOURCES_PREFIX@, text);
    }
    if LIMITS_PREFIX@.is_prefix_of(text) {
        lemma_prefix_chars(LIMITS_PREFIX@, text);
    }
    if REQUESTS_PREFIX@.is_prefix_of(text) {
        lemma_prefix_chars(REQUESTS_PREFIX@, text);
    }
    if STORAGE_PREFIX@.is_prefix_of(text) {
        lemma_prefix_chars(STORAGE_PREFIX@, text);
    }
}

/// Classification is total and stays within the categories of lines: it
/// gives neither the end of the input nor one of the reserved categories.
pub proof fn lemma_classify_kind(text: Seq<char>)
    ensures
        is_line_kind(classify(text).0),
{
}

/// Reading moves the cursor on until it is behind the tokens, and no
/// further.
pub proof fn lemma_advance_by(v: LexerView, n: nat)
    requires
        v.cursor <= v.tokens.len(),
    ensures
        v.advance_by(n) == (LexerView {
            cursor: if v.cursor + n <= v.tokens.len() {
                v.cursor + n
            } else {
                v.tokens.len()
            },
            ..v
        }),
    decreases n,
{
    if n > 0 {
        lemma_advance_by(v.advance(), (n - 1) as nat);
    }
}

/// Reading keeps a well-formed state well-formed.
pub proof fn lemma_advance_wf(v: LexerView)
    requires
        v.wf(),
    ensures
        v.advance().wf(),
{
}

/// Reading past the end changes nothing: once the cursor is behind the
/// tokens, any number of reads leaves the state as it is, and every one of
/// them gives the end of the input with the same line number.
pub proof fn lemma_read_past_end(v: LexerView, n: nat)
    requires
        v.cursor >= v.tokens.len(),
    ensures
        v.advance_by(n) == v,
        v.advance_by(n).current() == end_of_input(v.line_number),
    decreases n,
{
    if n > 0 {
        lemma_read_past_end(v, (n - 1) as nat);
    }
}

/// The reads of a new lexer give the tokens of its document in order, and
/// after them the end of the input for ever, with the line number that the
/// last token of the document has: the number of lines plus one.
pub proof fn lemma_reads_in_order(text: Seq<char>, n: nat)
    ensures
        n <= lines(text).len() ==> LexerView::fresh(text).advance_by(n).current() == tokenize(
            text,
        )[n as int],
        n >= lines(text).len() ==> LexerView::fresh(text).advance_by(n).current() == end_of_input(
            lines(text).len() + 1,
        ),
{
    lemma_advance_by(LexerView::fresh(text), n);
}


/// A lexer that has read nothing of its document is in a well-formed state.
pub proof fn lemma_fresh_wf(text: Seq<char>)
    ensures
        LexerView::fresh(text).wf(),
{
    lemma_tokenize(text);
}

} // verus!
