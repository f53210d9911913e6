use crate::command::{
    strings_view, BuiltinCommand, Command, CommandScope, ExecuteCommand, PipeCommand,
};
use crate::path_resolver::WindowsPathResolver;
use crate::repository::{share, BuiltinCommandRepository, JshCommandRepository};
use std::rc::Rc;
use vstd::prelude::*;

verus! {

// The command-line syntax:
//
//   line     := blank* stage (blank* '|' blank* stage)* blank*
//   stage    := word (blank+ word)*
//   word     := plain | quoted
//   plain    := one or more characters other than blank, '|' and '"'
//   quoted   := '"' characters other than '"' '"'
//
// where a blank is a space or a tab. A quoted word keeps its content as
// written, blanks included, and no escape sequence is interpreted. A word ends
// at a blank, at '|' or at the end of the line: a quote that directly follows
// a plain word, or a character that directly follows a closing quote other
// than a blank or '|', is a syntax error. The first word of a stage is the
// program; it names an explicit path, and so has local scope, when it holds
// '/' or '\'.

/// A lexical token of a command line.
pub enum LexToken {
    Pipe,
    Word(Seq<char>),
}

pub open spec fn is_blank(c: char) -> bool {
    c == ' ' || c == '\t'
}

pub open spec fn is_word_end(c: char) -> bool {
    is_blank(c) || c == '|' || c == '"'
}

/// The number of characters of a plain word from position `i` on.
pub open spec fn plain_len(s: Seq<char>, i: int) -> nat
    decreases s.len() - i,
{
    if 0 <= i < s.len() && !is_word_end(s[i]) {
        1 + plain_len(s, i + 1)
    } else {
        0
    }
}

/// The number of characters before the next quote from position `i` on.
pub open spec fn quoted_len(s: Seq<char>, i: int) -> nat
    decreases s.len() - i,
{
    if 0 <= i < s.len() && s[i] != '"' {
        1 + quoted_len(s, i + 1)
    } else {
        0
    }
}

pub open spec fn prepend(t: LexToken, rest: Option<Seq<LexToken>>) -> Option<Seq<LexToken>> {
    match rest {
        Some(r) => Some(seq![t] + r),
        None => None,
    }
}

/// The tokens of `s` from position `i` on, or `None` on a syntax error.
pub open spec fn lex_from(s: Seq<char>, i: int) -> Option<Seq<LexToken>>
    decreases s.len() - i,
{
    if i < 0 || i >= s.len() {
        Some(Seq::empty())
    } else if is_blank(s[i]) {
        lex_from(s, i + 1)
    } else if s[i] == '|' {
        prepend(LexToken::Pipe, lex_from(s, i + 1))
    } else if s[i] == '"' {
        let close = i + 1 + quoted_len(s, i + 1);
        if close >= s.len() {
            None
        } else if close + 1 < s.len() && !is_blank(s[close + 1]) && s[close + 1] != '|' {
            None
        } else {
            prepend(LexToken::Word(s.subrange(i + 1, close)), lex_from(s, close + 1))
        }
    } else {
        let end = i + 1 + plain_len(s, i + 1);
        // A plain word never runs past the end of the line; the first test
        // only makes that visible to the termination check.
        if end > s.len() || (end < s.len() && s[end] == '"') {
            None
        } else {
            prepend(LexToken::Word(s.subrange(i, end)), lex_from(s, end))
        }
    }
}

/// The tokens of a command line, or `None` on a syntax error.
pub open spec fn lex(s: Seq<char>) -> Option<Seq<LexToken>> {
    lex_from(s, 0)
}

/// The words between pipes, left to right; a stage with no word is empty.
pub open spec fn segments(t: Seq<LexToken>) -> Seq<Seq<Seq<char>>>
    decreases t.len(),
{
    if t.len() == 0 {
        seq![Seq::empty()]
    } else {
        let init = segments(t.drop_last());
        match t.last() {
            LexToken::Pipe => init.push(Seq::empty()),
            LexToken::Word(w) => init.update(init.len() - 1, init.last().push(w)),
        }
    }
}

pub open spec fn prefixed(acc: Seq<LexToken>, rest: Option<Seq<LexToken>>) -> Option<Seq<LexToken>> {
    match rest {
        Some(r) => Some(acc + r),
        None => None,
    }
}

/// An executable token.
pub enum Token {
    Pipe,
    Word(String),
}

impl View for Token {
    type V = LexToken;

    open spec fn view(&self) -> LexToken {
        match self {
            Token::Pipe => LexToken::Pipe,
            Token::Word(w) => LexToken::Word(w@),
        }
    }
}

pub open spec fn tokens_view(t: Seq<Token>) -> Seq<LexToken> {
    t.map_values(|x: Token| x@)
}

proof fn lemma_plain_len_bound(s: Seq<char>, i: int)
    requires
        0 <= i,
    ensures
        i + plain_len(s, i) <= s.len() || plain_len(s, i) == 0,
    decreases s.len() - i,
{
    if 0 <= i < s.len() && !is_word_end(s[i]) {
        lemma_plain_len_bound(s, i + 1);
    }
}

/// Splits a command line into tokens; `None` on a syntax error.
pub fn tokenize(input: &str) -> (r: Option<Vec<Token>>)
    ensures
        match r {
            Some(t) => lex(input@) == Some(tokens_view(t@)),
            None => lex(input@) is None,
        },
{
    let n = input.unicode_len();
    let ghost s = input@;
    let mut acc: Vec<Token> = Vec::new();
    let mut i: usize = 0;
    proof {
        match lex(s) {
            Some(r) => {
                assert(tokens_view(acc@) + r =~= r);
            },
            None => {},
        }
    }
    while i < n
        invariant
            n == s.len(),
            s == input@,
            i <= n,
            lex(s) == prefixed(tokens_view(acc@), lex_from(s, i as int)),
        decreases n - i,
    {
        let c = input.get_char(i);
        if c == ' ' || c == '\t' {
            i = i + 1;
        } else if c == '|' {
            proof {
                match lex_from(s, i + 1) {
                    Some(r) => {
                        assert(tokens_view(acc@) + (seq![LexToken::Pipe] + r) =~= tokens_view(
                            acc@.push(Token::Pipe),
                        ) + r);
                    },
                    None => {},
                }
            }
            acc.push(Token::Pipe);
            i = i + 1;
        } else if c == '"' {
            let start = i + 1;
            let mut j: usize = start;
            while j < n && input.get_char(j) != '"'
                invariant
                    n == s.len(),
                    s == input@,
                    start <= j <= n,
                    quoted_len(s, start as int) == (j - start) + quoted_len(s, j as int),
                decreases n - j,
            {
                j = j + 1;
            }
            if j >= n {
                return None;
            }
            if j + 1 < n {
                let d = input.get_char(j + 1);
                if !(d == ' ' || d == '\t' || d == '|') {
                    return None;
                }
            }
            let word = String::from_str(input.substring_char(start, j));
            proof {
                match lex_from(s, j + 1) {
                    Some(r) => {
                        assert(tokens_view(acc@) + (seq![LexToken::Word(word@)] + r) =~= tokens_view(
                            acc@.push(Token::Word(word)),
                        ) + r);
                    },
                    None => {},
                }
            }
            acc.push(Token::Word(word));
            i = j + 1;
        } else {
            let mut j: usize = i + 1;
            proof {
                lemma_plain_len_bound(s, i + 1);
            }
            while j < n && !is_word_end_char(input.get_char(j))
                invariant
                    n == s.len(),
                    s == input@,
                    i + 1 <= j <= n,
                    plain_len(s, i + 1) == (j - (i + 1)) + plain_len(s, j as int),
                decreases n - j,
            {
                j = j + 1;
            }
            if j < n && input.get_char(j) == '"' {
                return None;
            }
            let word = String::from_str(input.substring_char(i, j));
            proof {
                match lex_from(s, j as int) {
                    Some(r) => {
                        assert(tokens_view(acc@) + (seq![LexToken::Word(word@)] + r) =~= tokens_view(
                            acc@.push(Token::Word(word)),
                        ) + r);
                    },
                    None => {},
                }
            }
            acc.push(Token::Word(word));
            i = j;
        }
    }
    proof {
        assert(tokens_view(acc@) + Seq::<LexToken>::empty() =~= tokens_view(acc@));
    }
    Some(acc)
}

fn is_word_end_char(c: char) -> (r: bool)
    ensures
        r == is_word_end(c),
{
    c == ' ' || c == '\t' || c == '|' || c == '"'
}

/// The views of a list of word lists.
pub open spec fn segments_view(v: Seq<Vec<String>>) -> Seq<Seq<Seq<char>>> {
    v.map_values(|w: Vec<String>| strings_view(w@))
}

proof fn lemma_segments_len(t: Seq<LexToken>)
    ensures
        segments(t).len() >= 1,
    decreases t.len(),
{
    if t.len() > 0 {
        lemma_segments_len(t.drop_last());
    }
}

/// Groups tokens into the word lists between pipes.
pub fn split_segments(tokens: &Vec<Token>) -> (r: Vec<Vec<String>>)
    ensures
        segments_view(r@) == segments(tokens_view(tokens@)),
{
    let mut segs: Vec<Vec<String>> = Vec::new();
    let mut cur: Vec<String> = Vec::new();
    let mut i: usize = 0;
    proof {
        assert(tokens_view(tokens@.subrange(0, 0)) =~= Seq::<LexToken>::empty());
        assert(strings_view(cur@) =~= Seq::<Seq<char>>::empty());
        assert(segments_view(segs@) =~= Seq::<Seq<Seq<char>>>::empty());
        assert(segments_view(segs@).push(strings_view(cur@)) =~= seq![Seq::<Seq<char>>::empty()]);
    }
    while i < tokens.len()
        invariant
            i <= tokens@.len(),
            segments_view(segs@).push(strings_view(cur@)) == segments(
                tokens_view(tokens@.subrange(0, i as int)),
            ),
        decreases tokens@.len() - i,
    {
        let ghost pre = tokens_view(tokens@.subrange(0, i as int));
        let ghost next = tokens_view(tokens@.subrange(0, i + 1));
        proof {
            assert(next.drop_last() =~= pre);
            assert(next.last() == tokens@[i as int]@);
            lemma_segments_len(pre);
        }
        match &tokens[i] {
            Token::Pipe => {
                let ghost old_cur = cur@;
                let ghost old_segs = segs@;
                segs.push(cur);
                cur = Vec::new();
                proof {
                    assert(segments_view(segs@) =~= segments_view(old_segs).push(strings_view(old_cur)));
                    assert(strings_view(cur@) =~= Seq::<Seq<char>>::empty());
                    assert(segments_view(segs@).push(strings_view(cur@)) =~= segments(pre).push(
                        Seq::empty(),
                    ));
                }
            },
            Token::Word(w) => {
                cur.push(w.clone());
                proof {
                    assert(strings_view(cur@) =~= segments(pre).last().push(w@));
                    assert(segments_view(segs@).push(strings_view(cur@)) =~= segments(pre).update(
                        segments(pre).len() - 1,
                        segments(pre).last().push(w@),
                    ));
                }
            },
        }
        i = i + 1;
    }
    segs.push(cur);
    proof {
        assert(tokens@.subrange(0, i as int) =~= tokens@);
    }
    segs
}

pub open spec fn is_path_separator(c: char) -> bool {
    c == '/' || c == '\\'
}

/// A program token that holds a path separator names a file.
pub open spec fn names_path(program: Seq<char>) -> bool {
    exists|i: int| 0 <= i < program.len() && is_path_separator(#[trigger] program[i])
}

pub open spec fn scope_of(program: Seq<char>) -> CommandScope {
    if names_path(program) {
        CommandScope::Local
    } else {
        CommandScope::Global
    }
}

/// The scope of a program token.
pub fn scope_of_program(program: &str) -> (r: CommandScope)
    ensures
        r == scope_of(program@),
{
    let n = program.unicode_len();
    let mut i: usize = 0;
    while i < n
        invariant
            n == program@.len(),
            i <= n,
            forall|k: int| 0 <= k < i ==> !is_path_separator(#[trigger] program@[k]),
        decreases n - i,
    {
        let c = program.get_char(i);
        if c == '/' || c == '\\' {
            return CommandScope::Local;
        }
        i = i + 1;
    }
    CommandScope::Global
}

/// `c` is the stage that the words `words` make: under global scope a
/// registered builtin, else a process; a local program is always a process.
pub open spec fn stage_built_from<H>(
    c: Command<H>,
    words: Seq<Seq<char>>,
    builtins: Map<Seq<char>, Rc<H>>,
    resolver: Rc<WindowsPathResolver>,
) -> bool {
    let program = words[0];
    let arguments = words.drop_first();
    if scope_of(program) == CommandScope::Global && builtins.contains_key(program) {
        &&& c is Builtin
        &&& c->Builtin_0.handler == builtins[program]
        &&& strings_view(c->Builtin_0.arguments@) == arguments
    } else {
        &&& c is External
        &&& c->External_0.command_executable@ == program
        &&& c->External_0.command_scope == scope_of(program)
        &&& strings_view(c->External_0.arguments@) == arguments
        &&& c->External_0.path_resolver == resolver
    }
}

/// A program token that names a path makes a process stage of local scope,
/// whatever builtins are registered: the table is not consulted for it.
pub proof fn lemma_local_program_runs_as_process<H>(
    c: Command<H>,
    words: Seq<Seq<char>>,
    builtins: Map<Seq<char>, Rc<H>>,
    resolver: Rc<WindowsPathResolver>,
)
    requires
        words.len() >= 1,
        names_path(words[0]),
        stage_built_from(c, words, builtins, resolver),
    ensures
        c is External,
        c->External_0.command_scope == CommandScope::Local,
        c->External_0.command_executable@ == words[0],
{
}

pub open spec fn stages_built_from<H>(
    stages: Seq<Command<H>>,
    segs: Seq<Seq<Seq<char>>>,
    builtins: Map<Seq<char>, Rc<H>>,
    resolver: Rc<WindowsPathResolver>,
) -> bool {
    &&& stages.len() == segs.len()
    &&& forall|k: int|
        0 <= k < segs.len() ==> stage_built_from(#[trigger] stages[k], segs[k], builtins, resolver)
}

pub open spec fn syntax_error_reason() -> Seq<char> {
    "Syntax error"@
}

pub open spec fn no_command_reason() -> Seq<char> {
    "No command"@
}

pub open spec fn empty_stage_reason() -> Seq<char> {
    "Expected execute command"@
}

pub open spec fn has_empty_stage(segs: Seq<Seq<Seq<char>>>) -> bool {
    exists|k: int| 0 <= k < segs.len() && (#[trigger] segs[k]).len() == 0
}

/// The stages of a command line, as word lists.
pub open spec fn line_segments(s: Seq<char>) -> Seq<Seq<Seq<char>>> {
    match lex(s) {
        Some(t) => segments(t),
        None => Seq::empty(),
    }
}

/// Why a command line does not parse, or `None` when it does.
pub open spec fn parse_failure(s: Seq<char>) -> Option<Seq<char>> {
    match lex(s) {
        None => Some(syntax_error_reason()),
        Some(t) => if t.len() == 0 {
            Some(no_command_reason())
        } else if has_empty_stage(segments(t)) {
            Some(empty_stage_reason())
        } else {
            None
        },
    }
}

/// An error that can describe itself.
pub trait CommandParserError {
    spec fn description(&self) -> Seq<char>;

    fn describe(&self) -> (r: String)
        ensures
            r@ == self.description(),
    ;
}

/// Why a command line could not be parsed.
#[derive(Debug, Clone)]
pub struct JshCommandParserError {
    reason: String,
}

impl JshCommandParserError {
    pub fn new(reason: String) -> (r: JshCommandParserError)
        ensures
            r.description() == reason@,
    {
        JshCommandParserError { reason }
    }
}

impl CommandParserError for JshCommandParserError {
    closed spec fn description(&self) -> Seq<char> {
        self.reason@
    }

    fn describe(&self) -> (r: String) {
        self.reason.clone()
    }
}

/// Something that turns a command line into a command tree.
pub trait CommandParser<H> {
    type TCommandParserError: CommandParserError;

    /// `r` is what parsing the line `s` gives.
    spec fn parses_to(&self, s: Seq<char>, r: Result<Command<H>, Self::TCommandParserError>) -> bool;

    fn parse_command(&self, command: &str) -> (r: Result<Command<H>, Self::TCommandParserError>)
        ensures
            self.parses_to(command@, r),
    ;
}

/// The parser of the shell's command language.
pub struct JshCommandParser<H> {
    path_resolver: Rc<WindowsPathResolver>,
    builtin_command_repository: Rc<JshCommandRepository<H>>,
}

impl<H> JshCommandParser<H> {
    /// The search state that every process command is given.
    pub closed spec fn resolver(&self) -> Rc<WindowsPathResolver> {
        self.path_resolver
    }

    /// The builtins that global names are looked up in.
    pub closed spec fn builtins(&self) -> Map<Seq<char>, Rc<H>> {
        self.builtin_command_repository.registered()
    }

    pub fn new(
        path_resolver: Rc<WindowsPathResolver>,
        builtin_command_repository: Rc<JshCommandRepository<H>>,
    ) -> (r: JshCommandParser<H>)
        ensures
            r.resolver() == path_resolver,
            r.builtins() == builtin_command_repository.registered(),
    {
        JshCommandParser { path_resolver, builtin_command_repository }
    }

    /// `r` is what parsing the line `s` gives: the error for a line that does
    /// not parse, else a chain of the stages that its word lists make.
    pub open spec fn parsed_as(&self, s: Seq<char>, r: Result<Command<H>, JshCommandParserError>) -> bool {
        match r {
            Err(e) => parse_failure(s) == Some(e.description()),
            Ok(c) => {
                &&& parse_failure(s) is None
                &&& c.is_chain()
                &&& stages_built_from(c.stages(), line_segments(s), self.builtins(), self.resolver())
            },
        }
    }

    /// The stage that a non-empty word list makes.
    fn build_stage(&self, words: Vec<String>) -> (r: Command<H>)
        requires
            words@.len() >= 1,
        ensures
            stage_built_from(r, strings_view(words@), self.builtins(), self.resolver()),
    {
        let ghost all = strings_view(words@);
        let mut arguments = words;
        let program = arguments.remove(0);
        proof {
            assert(strings_view(arguments@) =~= all.drop_first());
        }
        let scope = scope_of_program(program.as_str());
        match scope {
            CommandScope::Global => {
                match self.builtin_command_repository.lookup_command(program.as_str()) {
                    Some(handler) => {
                        return Command::Builtin(BuiltinCommand::new(handler, arguments));
                    },
                    None => {},
                }
            },
            CommandScope::Local => {},
        }
        Command::External(ExecuteCommand::new(program, scope, arguments, share(&self.path_resolver)))
    }

    /// The chain of the stages that non-empty word lists make, left to right.
    fn build_chain(&self, segs: Vec<Vec<String>>) -> (r: Command<H>)
        requires
            segs@.len() >= 1,
            forall|k: int| 0 <= k < segs@.len() ==> (#[trigger] segs@[k])@.len() >= 1,
        ensures
            r.is_chain(),
            stages_built_from(r.stages(), segments_view(segs@), self.builtins(), self.resolver()),
    {
        let ghost all = segments_view(segs@);
        let mut segs = segs;
        let last = segs.pop().unwrap();
        let mut cmd = self.build_stage(last);
        proof {
            assert(all[all.len() - 1] == strings_view(last@));
            assert(!(cmd is Pipe));
            assert(cmd.stages() == seq![cmd]);
            assert(segments_view(segs@) =~= all.subrange(0, segs@.len() as int));
        }
        while segs.len() > 0
            invariant
                all.len() >= 1,
                segs@.len() < all.len(),
                segments_view(segs@) == all.subrange(0, segs@.len() as int),
                forall|k: int| 0 <= k < segs@.len() ==> (#[trigger] segs@[k])@.len() >= 1,
                cmd.is_chain(),
                stages_built_from(
                    cmd.stages(),
                    all.subrange(segs@.len() as int, all.len() as int),
                    self.builtins(),
                    self.resolver(),
                ),
            decreases segs@.len(),
        {
            let ghost n = segs@.len();
            let ghost before = segs@;
            let seg = segs.pop().unwrap();
            proof {
                assert(segments_view(before)[n - 1] == all.subrange(0, n as int)[n - 1]);
                assert(all[n - 1] == strings_view(seg@));
                assert(segments_view(segs@) =~= all.subrange(0, n - 1));
            }
            let leaf = self.build_stage(seg);
            proof {
                assert(!(leaf is Pipe));
                assert(leaf.stages() == seq![leaf]);
            }
            let ghost old_stages = cmd.stages();
            cmd = Command::Pipe(PipeCommand::new(Box::new(leaf), Box::new(cmd)));
            proof {
                assert(cmd.stages() =~= seq![leaf] + old_stages);
                let tail = all.subrange(n - 1, all.len() as int);
                assert forall|k: int| 0 <= k < tail.len() implies stage_built_from(
                    #[trigger] cmd.stages()[k],
                    tail[k],
                    self.builtins(),
                    self.resolver(),
                ) by {
                    if k > 0 {
                        assert(cmd.stages()[k] == old_stages[k - 1]);
                        assert(tail[k] == all.subrange(n as int, all.len() as int)[k - 1]);
                    }
                }
            }
        }
        proof {
            assert(all.subrange(0, all.len() as int) =~= all);
        }
        cmd
    }

    /// Parses a command line into a command tree.
    pub fn parse(&self, command: &str) -> (r: Result<Command<H>, JshCommandParserError>)
        ensures
            self.parsed_as(command@, r),
    {
        let tokens = match tokenize(command) {
            Some(t) => t,
            None => {
                return Err(JshCommandParserError::new(String::from_str("Syntax error")));
            },
        };
        if tokens.len() == 0 {
            return Err(JshCommandParserError::new(String::from_str("No command")));
        }
        let segs = split_segments(&tokens);
        let mut k: usize = 0;
        while k < segs.len()
            invariant
                k <= segs@.len(),
                segments_view(segs@) == segments(tokens_view(tokens@)),
                tokens_view(tokens@).len() > 0,
                lex(command@) == Some(tokens_view(tokens@)),
                forall|j: int| 0 <= j < k ==> (#[trigger] segs@[j])@.len() >= 1,
            decreases segs@.len() - k,
        {
            if segs[k].len() == 0 {
                proof {
                    assert(segments_view(segs@)[k as int].len() == 0);
                    assert(segments(tokens_view(tokens@))[k as int].len() == 0);
                    assert(has_empty_stage(segments(tokens_view(tokens@))));
                }
                return Err(JshCommandParserError::new(String::from_str("Expected execute command")));
            }
            k = k + 1;
        }
        proof {
            lemma_segments_len(tokens_view(tokens@));
            assert forall|j: int| 0 <= j < segments_view(segs@).len() implies (
            #[trigger] segments_view(segs@)[j]).len() != 0 by {
                assert(segs@[j]@.len() >= 1);
            }
        }
        Ok(self.build_chain(segs))
    }
}

impl<H> JshCommandParser<H> {
    /// What the shell makes of a line read from the console: an empty line is
    /// skipped without being parsed, any other line is parsed.
    pub fn interpret_line(&self, line: &str) -> (r: Option<Result<Command<H>, JshCommandParserError>>)
        ensures
            line@.len() == 0 <==> r is None,
            r matches Some(p) ==> self.parsed_as(line@, p),
    {
        if line.is_empty() {
            None
        } else {
            Some(self.parse(line))
        }
    }
}

impl<H> CommandParser<H> for JshCommandParser<H> {
    type TCommandParserError = JshCommandParserError;

    open spec fn parses_to(&self, s: Seq<char>, r: Result<Command<H>, JshCommandParserError>) -> bool {
        self.parsed_as(s, r)
    }

    fn parse_command(&self, command: &str) -> (r: Result<Command<H>, JshCommandParserError>) {
        self.parse(command)
    }
}

} // verus!
