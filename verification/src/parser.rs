//! Quote-aware tokenizer and parser: one raw line becomes a structured
//! command with a name, arguments, and redirection directives.
//!
//! The meaning of parsing is given by a character-at-a-time state machine
//! over `Seq<char>` (`pstep`/`pfold`/`pfinish`); `try_parse_input` is proved
//! to return exactly what that machine yields on the trimmed line.

use vstd::prelude::*;
use crate::text::{
    chars_to_string, is_digit, spec_digit_val, spec_is_digit, spec_token_fd, spec_trim,
    str_to_chars, token_fd, trim_chars,
};

verus! {

/// One parsed command line.
#[derive(Debug)]
pub enum Command {
    Simple {
        command_name: String,
        args: Vec<String>,
        redirects: Vec<Redirect>,
        /// Background flag: execution does not wait for completion.  No
        /// surface token sets it during parsing; callers building background
        /// jobs set it on the parsed value.
        dont_wait: bool,
    },
}

/// What a redirect does with its source descriptor.
#[derive(Debug)]
pub enum RedirectionType {
    /// `>`: truncate the target file.
    Output,
    /// `>>`: append to the target file.
    AppendOutput,
    /// `>@n`: duplicate descriptor `n` onto the source descriptor.
    RedirectToFileDescriptor(i32),
}

/// Where the redirected bytes go.
#[derive(Debug)]
pub enum RedirectionTarget {
    RealFile(String),
    FileDescriptor(i32),
}

/// One redirection directive.
#[derive(Debug)]
pub struct Redirect {
    pub from_fd: i32,
    pub kind: RedirectionType,
    pub target: RedirectionTarget,
}

/// Why a line was rejected.
#[derive(Clone, Copy, PartialEq, Eq, Structural, Debug)]
pub enum ParseError {
    /// `>@` with no digits after it.
    MissingDuplicateDescriptor,
    /// A duplicate-target descriptor beyond `i32::MAX`.
    DescriptorOutOfRange,
    /// A `>` or `>>` at end of input with no target token.
    DanglingRedirect,
}

pub ghost enum SpecRedirectionType {
    Output,
    AppendOutput,
    RedirectToFileDescriptor(int),
}

pub ghost enum SpecRedirectionTarget {
    RealFile(Seq<char>),
    FileDescriptor(int),
}

pub ghost struct SpecRedirect {
    pub from_fd: int,
    pub kind: SpecRedirectionType,
    pub target: SpecRedirectionTarget,
}

pub ghost struct SpecCommand {
    pub command_name: Seq<char>,
    pub args: Seq<Seq<char>>,
    pub redirects: Seq<SpecRedirect>,
    pub dont_wait: bool,
}

impl View for RedirectionType {
    type V = SpecRedirectionType;

    open spec fn view(&self) -> SpecRedirectionType {
        match self {
            RedirectionType::Output => SpecRedirectionType::Output,
            RedirectionType::AppendOutput => SpecRedirectionType::AppendOutput,
            RedirectionType::RedirectToFileDescriptor(fd) => {
                SpecRedirectionType::RedirectToFileDescriptor(*fd as int)
            },
        }
    }
}

impl View for RedirectionTarget {
    type V = SpecRedirectionTarget;

    open spec fn view(&self) -> SpecRedirectionTarget {
        match self {
            RedirectionTarget::RealFile(p) => SpecRedirectionTarget::RealFile(p@),
            RedirectionTarget::FileDescriptor(fd) => SpecRedirectionTarget::FileDescriptor(
                *fd as int,
            ),
        }
    }
}

impl View for Redirect {
    type V = SpecRedirect;

    open spec fn view(&self) -> SpecRedirect {
        SpecRedirect { from_fd: self.from_fd as int, kind: self.kind@, target: self.target@ }
    }
}

/// The views of a redirect list.
pub open spec fn redirects_view(rs: Seq<Redirect>) -> Seq<SpecRedirect> {
    rs.map_values(|r: Redirect| r@)
}

/// The views of a token list.
pub open spec fn strings_view(ss: Seq<String>) -> Seq<Seq<char>> {
    ss.map_values(|s: String| s@)
}

impl View for Command {
    type V = SpecCommand;

    open spec fn view(&self) -> SpecCommand {
        match self {
            Command::Simple { command_name, args, redirects, dont_wait } => SpecCommand {
                command_name: command_name@,
                args: strings_view(args@),
                redirects: redirects_view(redirects@),
                dont_wait: *dont_wait,
            },
        }
    }
}

/// Parse-time invariant of a single redirect: file kinds carry file targets,
/// the duplicate kind carries the same descriptor in kind and target, and all
/// descriptors are nonnegative machine integers.
pub open spec fn redirect_wf(r: SpecRedirect) -> bool {
    0 <= r.from_fd <= i32::MAX && match r.kind {
        SpecRedirectionType::Output => r.target is RealFile,
        SpecRedirectionType::AppendOutput => r.target is RealFile,
        SpecRedirectionType::RedirectToFileDescriptor(t) => 0 <= t <= i32::MAX && r.target
            == SpecRedirectionTarget::FileDescriptor(t),
    }
}

/// Invariant of every parsed command: nonempty name, nonempty argument
/// tokens, well-formed redirects.
pub open spec fn command_wf(c: SpecCommand) -> bool {
    c.command_name.len() > 0 && (forall|i: int|
        0 <= i < c.args.len() ==> (#[trigger] c.args[i]).len() > 0) && (forall|i: int|
        0 <= i < c.redirects.len() ==> redirect_wf(#[trigger] c.redirects[i]))
}

/// Where the state machine stands within the current character.
pub ghost enum PMode {
    /// Accumulating ordinary tokens.
    Normal,
    /// Just saw an unquoted `>`; the redirect kind is still open.
    SawGt { fd: int },
    /// Waiting for the first character of a file target token.
    PathStart { fd: int, append: bool },
    /// Collecting the file target token, quote-aware.
    PathToken { fd: int, append: bool, psq: bool, pdq: bool, path: Seq<char> },
    /// Collecting the digits of a `>@` target descriptor.
    DupDigits { fd: int, val: nat, seen: bool },
}

/// The whole parser state between characters.
pub ghost struct PState {
    pub sq: bool,
    pub dq: bool,
    pub buf: Seq<char>,
    pub args: Seq<Seq<char>>,
    pub redirects: Seq<SpecRedirect>,
    pub mode: PMode,
}

pub open spec fn init_state() -> PState {
    PState {
        sq: false,
        dq: false,
        buf: Seq::empty(),
        args: Seq::empty(),
        redirects: Seq::empty(),
        mode: PMode::Normal,
    }
}

/// A nonempty accumulator becomes the next argument token.
pub open spec fn flush_buf(st: PState) -> PState {
    if st.buf.len() > 0 {
        PState { buf: Seq::empty(), args: st.args.push(st.buf), ..st }
    } else {
        st
    }
}

pub open spec fn file_redirect(fd: int, append: bool, path: Seq<char>) -> SpecRedirect {
    SpecRedirect {
        from_fd: fd,
        kind: if append {
            SpecRedirectionType::AppendOutput
        } else {
            SpecRedirectionType::Output
        },
        target: SpecRedirectionTarget::RealFile(path),
    }
}

pub open spec fn dup_redirect(fd: int, target: int) -> SpecRedirect {
    SpecRedirect {
        from_fd: fd,
        kind: SpecRedirectionType::RedirectToFileDescriptor(target),
        target: SpecRedirectionTarget::FileDescriptor(target),
    }
}

/// One character in ordinary token accumulation: quotes toggle their mode
/// unless the other is active, unquoted space flushes, unquoted `>` opens a
/// redirect whose source descriptor is the accumulator when that is a digit
/// run fitting an `i32` (consumed), and 1 otherwise (accumulator kept).
pub open spec fn normal_step(st: PState, c: char) -> PState {
    if c == '\'' {
        if st.dq {
            PState { buf: st.buf.push(c), mode: PMode::Normal, ..st }
        } else {
            PState { sq: !st.sq, mode: PMode::Normal, ..st }
        }
    } else if c == '"' {
        if st.sq {
            PState { buf: st.buf.push(c), mode: PMode::Normal, ..st }
        } else {
            PState { dq: !st.dq, mode: PMode::Normal, ..st }
        }
    } else if c == ' ' && !st.sq && !st.dq {
        PState { mode: PMode::Normal, ..flush_buf(st) }
    } else if c == '>' && !st.sq && !st.dq {
        match spec_token_fd(st.buf) {
            Some(n) => PState { buf: Seq::empty(), mode: PMode::SawGt { fd: n }, ..st },
            None => PState { mode: PMode::SawGt { fd: 1 }, ..st },
        }
    } else {
        PState { buf: st.buf.push(c), mode: PMode::Normal, ..st }
    }
}

/// First character after the redirect operator: spaces are skipped, then a
/// quote-aware token starts.
pub open spec fn path_start_step(st: PState, fd: int, append: bool, c: char) -> PState {
    if c == ' ' {
        PState { mode: PMode::PathStart { fd, append }, ..st }
    } else if c == '\'' {
        PState {
            mode: PMode::PathToken { fd, append, psq: true, pdq: false, path: Seq::empty() },
            ..st
        }
    } else if c == '"' {
        PState {
            mode: PMode::PathToken { fd, append, psq: false, pdq: true, path: Seq::empty() },
            ..st
        }
    } else {
        PState {
            mode: PMode::PathToken {
                fd,
                append,
                psq: false,
                pdq: false,
                path: Seq::empty().push(c),
            },
            ..st
        }
    }
}

/// Characters of the file target token, with the same quoting rule as
/// ordinary tokens; an unquoted space ends the token and records the
/// redirect.
pub open spec fn path_token_step(
    st: PState,
    fd: int,
    append: bool,
    psq: bool,
    pdq: bool,
    path: Seq<char>,
    c: char,
) -> PState {
    if c == '\'' {
        if pdq {
            PState {
                mode: PMode::PathToken { fd, append, psq, pdq, path: path.push(c) },
                ..st
            }
        } else {
            PState { mode: PMode::PathToken { fd, append, psq: !psq, pdq, path }, ..st }
        }
    } else if c == '"' {
        if psq {
            PState {
                mode: PMode::PathToken { fd, append, psq, pdq, path: path.push(c) },
                ..st
            }
        } else {
            PState { mode: PMode::PathToken { fd, append, psq, pdq: !pdq, path }, ..st }
        }
    } else if c == ' ' && !psq && !pdq {
        PState {
            redirects: st.redirects.push(file_redirect(fd, append, path)),
            mode: PMode::Normal,
            ..st
        }
    } else {
        PState { mode: PMode::PathToken { fd, append, psq, pdq, path: path.push(c) }, ..st }
    }
}

/// One character of input.
pub open spec fn pstep(st: PState, c: char) -> Result<PState, ParseError> {
    match st.mode {
        PMode::Normal => Ok(normal_step(st, c)),
        PMode::SawGt { fd } => {
            if c == '>' {
                Ok(PState { mode: PMode::PathStart { fd, append: true }, ..st })
            } else if c == '@' {
                Ok(PState { mode: PMode::DupDigits { fd, val: 0, seen: false }, ..st })
            } else {
                Ok(path_start_step(st, fd, false, c))
            }
        },
        PMode::PathStart { fd, append } => Ok(path_start_step(st, fd, append, c)),
        PMode::PathToken { fd, append, psq, pdq, path } => Ok(
            path_token_step(st, fd, append, psq, pdq, path, c),
        ),
        PMode::DupDigits { fd, val, seen } => {
            if spec_is_digit(c) {
                Ok(
                    PState {
                        mode: PMode::DupDigits { fd, val: val * 10 + spec_digit_val(c), seen: true },
                        ..st
                    },
                )
            } else if !seen {
                Err(ParseError::MissingDuplicateDescriptor)
            } else if val > i32::MAX {
                Err(ParseError::DescriptorOutOfRange)
            } else {
                Ok(
                    normal_step(
                        PState {
                            redirects: st.redirects.push(dup_redirect(fd, val as int)),
                            mode: PMode::Normal,
                            ..st
                        },
                        c,
                    ),
                )
            }
        },
    }
}

/// The state machine run over a sequence of characters.
pub open spec fn pfold(st: PState, s: Seq<char>) -> Result<PState, ParseError>
    decreases s.len(),
{
    if s.len() == 0 {
        Ok(st)
    } else {
        match pstep(st, s[0]) {
            Ok(st2) => pfold(st2, s.drop_first()),
            Err(e) => Err(e),
        }
    }
}

/// End of input while accumulating tokens: a nonempty accumulator becomes the
/// final argument; the first token is the command name; zero tokens is "no
/// command".
pub open spec fn finish_tokens(st: PState) -> Result<Option<SpecCommand>, ParseError> {
    let f = flush_buf(st);
    if f.args.len() == 0 {
        Ok(None)
    } else {
        Ok(
            Some(
                SpecCommand {
                    command_name: f.args[0],
                    args: f.args.drop_first(),
                    redirects: f.redirects,
                    dont_wait: false,
                },
            ),
        )
    }
}

/// End of input in any mode.
pub open spec fn pfinish(st: PState) -> Result<Option<SpecCommand>, ParseError> {
    match st.mode {
        PMode::Normal => finish_tokens(st),
        PMode::SawGt { .. } => Err(ParseError::DanglingRedirect),
        PMode::PathStart { .. } => Err(ParseError::DanglingRedirect),
        PMode::PathToken { fd, append, psq, pdq, path } => finish_tokens(
            PState {
                redirects: st.redirects.push(file_redirect(fd, append, path)),
                mode: PMode::Normal,
                ..st
            },
        ),
        PMode::DupDigits { fd, val, seen } => {
            if !seen {
                Err(ParseError::MissingDuplicateDescriptor)
            } else if val > i32::MAX {
                Err(ParseError::DescriptorOutOfRange)
            } else {
                finish_tokens(
                    PState {
                        redirects: st.redirects.push(dup_redirect(fd, val as int)),
                        mode: PMode::Normal,
                        ..st
                    },
                )
            }
        },
    }
}

/// What parsing one raw line means.
pub open spec fn spec_parse(line: Seq<char>) -> Result<Option<SpecCommand>, ParseError> {
    match pfold(init_state(), spec_trim(line)) {
        Ok(st) => pfinish(st),
        Err(e) => Err(e),
    }
}

/// Machine-level invariant carried across characters.
pub open spec fn mode_wf(m: PMode) -> bool {
    match m {
        PMode::Normal => true,
        PMode::SawGt { fd } => 0 <= fd <= i32::MAX,
        PMode::PathStart { fd, .. } => 0 <= fd <= i32::MAX,
        PMode::PathToken { fd, .. } => 0 <= fd <= i32::MAX,
        PMode::DupDigits { fd, .. } => 0 <= fd <= i32::MAX,
    }
}

pub open spec fn state_wf(st: PState) -> bool {
    (forall|i: int| 0 <= i < st.args.len() ==> (#[trigger] st.args[i]).len() > 0) && (forall|i: int|
        0 <= i < st.redirects.len() ==> redirect_wf(#[trigger] st.redirects[i])) && mode_wf(st.mode)
}

/// Each step keeps the machine invariant.
pub proof fn lemma_pstep_wf(st: PState, c: char)
    requires
        state_wf(st),
    ensures
        pstep(st, c) matches Ok(st2) ==> state_wf(st2),
{
}

/// The whole run keeps the machine invariant.
pub proof fn lemma_pfold_wf(st: PState, s: Seq<char>)
    requires
        state_wf(st),
    ensures
        pfold(st, s) matches Ok(st2) ==> state_wf(st2),
    decreases s.len(),
{
    if s.len() > 0 {
        lemma_pstep_wf(st, s[0]);
        match pstep(st, s[0]) {
            Ok(st2) => lemma_pfold_wf(st2, s.drop_first()),
            Err(_) => {},
        }
    }
}

/// A well-formed final state yields a well-formed command.
pub proof fn lemma_pfinish_wf(st: PState)
    requires
        state_wf(st),
    ensures
        pfinish(st) matches Ok(Some(c)) ==> command_wf(c),
{
}

/// What parsing yields, it yields well-formed.
pub proof fn lemma_spec_parse_wf(line: Seq<char>)
    ensures
        spec_parse(line) matches Ok(Some(c)) ==> command_wf(c),
{
    lemma_pfold_wf(init_state(), spec_trim(line));
    match pfold(init_state(), spec_trim(line)) {
        Ok(st) => lemma_pfinish_wf(st),
        Err(_) => {},
    }
}

proof fn lemma_strings_view_push(ss: Seq<String>, s: String)
    ensures
        strings_view(ss.push(s)) == strings_view(ss).push(s@),
{
    assert(strings_view(ss.push(s)) =~= strings_view(ss).push(s@));
}

proof fn lemma_redirects_view_push(rs: Seq<Redirect>, r: Redirect)
    ensures
        redirects_view(rs.push(r)) == redirects_view(rs).push(r@),
{
    assert(redirects_view(rs.push(r)) =~= redirects_view(rs).push(r@));
}

/// Runtime accumulators of the tokenizer, apart from the mode.
struct Tokenizer {
    sq: bool,
    dq: bool,
    buf: Vec<char>,
    args: Vec<String>,
    redirects: Vec<Redirect>,
}

/// The machine state a `Tokenizer` stands for, once a mode is supplied.
spec fn tok_view(t: Tokenizer, mode: PMode) -> PState {
    PState {
        sq: t.sq,
        dq: t.dq,
        buf: t.buf@,
        args: strings_view(t.args@),
        redirects: redirects_view(t.redirects@),
        mode,
    }
}

/// Runtime counterpart of `PMode`.  A duplicate-target value beyond
/// `i32::MAX` cannot be held exactly, so the `big` flag records that the
/// mathematical value has left the range.
enum EMode {
    Normal,
    SawGt { fd: i32 },
    PathStart { fd: i32, append: bool },
    PathToken { fd: i32, append: bool, psq: bool, pdq: bool, path: Vec<char> },
    DupDigits { fd: i32, val: u64, seen: bool, big: bool },
}

spec fn emode_rel(em: EMode, m: PMode) -> bool {
    match m {
        PMode::Normal => em is Normal,
        PMode::SawGt { fd } => em matches EMode::SawGt { fd: f } && f as int == fd,
        PMode::PathStart { fd, append } => em matches EMode::PathStart { fd: f, append: a } && f
            as int == fd && a == append,
        PMode::PathToken { fd, append, psq, pdq, path } => em matches EMode::PathToken {
            fd: f,
            append: a,
            psq: s,
            pdq: d,
            path: p,
        } && f as int == fd && a == append && s == psq && d == pdq && p@ == path,
        PMode::DupDigits { fd, val, seen } => em matches EMode::DupDigits {
            fd: f,
            val: v,
            seen: s,
            big: b,
        } && f as int == fd && s == seen && (b <==> val > i32::MAX) && (!b ==> v as nat == val),
    }
}

/// One ordinary-token character at runtime, mirroring `normal_step`.
fn normal_step_exec(t: &mut Tokenizer, c: char) -> (m: EMode)
    ensures
        ({
            let st1 = normal_step(tok_view(*old(t), PMode::Normal), c);
            &&& final(t).sq == st1.sq
            &&& final(t).dq == st1.dq
            &&& final(t).buf@ == st1.buf
            &&& strings_view(final(t).args@) == st1.args
            &&& redirects_view(final(t).redirects@) == st1.redirects
            &&& emode_rel(m, st1.mode)
        }),
{
    if c == '\'' {
        if t.dq {
            t.buf.push(c);
        } else {
            t.sq = !t.sq;
        }
        EMode::Normal
    } else if c == '"' {
        if t.sq {
            t.buf.push(c);
        } else {
            t.dq = !t.dq;
        }
        EMode::Normal
    } else if c == ' ' && !t.sq && !t.dq {
        if t.buf.len() > 0 {
            let s = chars_to_string(&t.buf);
            proof {
                lemma_strings_view_push(t.args@, s);
            }
            t.args.push(s);
            t.buf.clear();
        }
        EMode::Normal
    } else if c == '>' && !t.sq && !t.dq {
        match token_fd(&t.buf) {
            Some(n) => {
                t.buf.clear();
                EMode::SawGt { fd: n }
            },
            None => EMode::SawGt { fd: 1 },
        }
    } else {
        t.buf.push(c);
        EMode::Normal
    }
}

/// Runtime counterpart of `path_start_step`'s mode choice.
fn path_start_exec(fd: i32, append: bool, c: char) -> (m: EMode)
    ensures
        forall|st: PState| emode_rel(m, #[trigger] path_start_step(st, fd as int, append, c).mode),
{
    if c == ' ' {
        EMode::PathStart { fd, append }
    } else if c == '\'' {
        EMode::PathToken { fd, append, psq: true, pdq: false, path: Vec::new() }
    } else if c == '"' {
        EMode::PathToken { fd, append, psq: false, pdq: true, path: Vec::new() }
    } else {
        let mut p: Vec<char> = Vec::new();
        p.push(c);
        assert(p@ =~= Seq::<char>::empty().push(c));
        EMode::PathToken { fd, append, psq: false, pdq: false, path: p }
    }
}

/// Records one file redirect.
fn push_file_redirect(t: &mut Tokenizer, fd: i32, append: bool, path: Vec<char>)
    requires
        fd >= 0,
    ensures
        final(t).sq == old(t).sq,
        final(t).dq == old(t).dq,
        final(t).buf@ == old(t).buf@,
        final(t).args@ == old(t).args@,
        redirects_view(final(t).redirects@) == redirects_view(old(t).redirects@).push(
            file_redirect(fd as int, append, path@),
        ),
{
    let pstr = chars_to_string(&path);
    let kind = if append {
        RedirectionType::AppendOutput
    } else {
        RedirectionType::Output
    };
    let r = Redirect { from_fd: fd, kind, target: RedirectionTarget::RealFile(pstr) };
    proof {
        lemma_redirects_view_push(t.redirects@, r);
    }
    t.redirects.push(r);
}

/// Records one descriptor-duplication redirect.
fn push_dup_redirect(t: &mut Tokenizer, fd: i32, target: i32)
    requires
        fd >= 0,
        target >= 0,
    ensures
        final(t).sq == old(t).sq,
        final(t).dq == old(t).dq,
        final(t).buf@ == old(t).buf@,
        final(t).args@ == old(t).args@,
        redirects_view(final(t).redirects@) == redirects_view(old(t).redirects@).push(
            dup_redirect(fd as int, target as int),
        ),
{
    let r = Redirect {
        from_fd: fd,
        kind: RedirectionType::RedirectToFileDescriptor(target),
        target: RedirectionTarget::FileDescriptor(target),
    };
    proof {
        lemma_redirects_view_push(t.redirects@, r);
    }
    t.redirects.push(r);
}

proof fn lemma_strings_view_remove_first(ss: Seq<String>)
    requires
        ss.len() > 0,
    ensures
        strings_view(ss.remove(0)) == strings_view(ss).drop_first(),
{
    assert(strings_view(ss.remove(0)) =~= strings_view(ss).drop_first());
}

/// End of input: flush the accumulator and split name from arguments,
/// mirroring `finish_tokens`.
fn finish_exec(mut t: Tokenizer) -> (r: Option<Command>)
    ensures
        ({
            let ft = finish_tokens(tok_view(t, PMode::Normal));
            match r {
                Some(c) => ft == Ok::<Option<SpecCommand>, ParseError>(Some(c@)),
                None => ft == Ok::<Option<SpecCommand>, ParseError>(None),
            }
        }),
{
    let ghost st0 = tok_view(t, PMode::Normal);
    let ghost f = flush_buf(st0);
    if t.buf.len() > 0 {
        let s = chars_to_string(&t.buf);
        proof {
            lemma_strings_view_push(t.args@, s);
        }
        t.args.push(s);
    }
    proof {
        assert(strings_view(t.args@) == f.args);
        assert(redirects_view(t.redirects@) == f.redirects);
    }
    if t.args.len() == 0 {
        None
    } else {
        proof {
            lemma_strings_view_remove_first(t.args@);
        }
        let command_name = t.args.remove(0);
        let cmd = Command::Simple {
            command_name,
            args: t.args,
            redirects: t.redirects,
            dont_wait: false,
        };
        Some(cmd)
    }
}

/// Parses one raw line: `Ok(None)` for a line without tokens, `Ok(Some(_))`
/// for a command, `Err(_)` for malformed redirect syntax.  The result is
/// exactly what the specification machine `spec_parse` yields on the line.
pub fn try_parse_input(input: &str) -> (r: Result<Option<Command>, ParseError>)
    ensures
        match r {
            Ok(Some(c)) => spec_parse(input@) == Ok::<Option<SpecCommand>, ParseError>(Some(c@)),
            Ok(None) => spec_parse(input@) == Ok::<Option<SpecCommand>, ParseError>(None),
            Err(e) => spec_parse(input@) == Err::<Option<SpecCommand>, ParseError>(e),
        },
        r matches Ok(Some(c)) ==> command_wf(c@),
{
    proof {
        lemma_spec_parse_wf(input@);
    }
    let chars = str_to_chars(input);
    let t = trim_chars(&chars);
    let ghost full = t@;
    proof {
        assert(full == spec_trim(input@));
        assert(t@.skip(0) =~= full);
    }
    let mut tok = Tokenizer {
        sq: false,
        dq: false,
        buf: Vec::new(),
        args: Vec::new(),
        redirects: Vec::new(),
    };
    let mut mode = EMode::Normal;
    let ghost mut gst = init_state();
    proof {
        assert(strings_view(tok.args@) =~= gst.args);
        assert(redirects_view(tok.redirects@) =~= gst.redirects);
    }
    let mut i: usize = 0;
    while i < t.len()
        invariant
            i <= t@.len(),
            t@ == full,
            full == spec_trim(input@),
            pfold(gst, full.skip(i as int)) == pfold(init_state(), full),
            tok.sq == gst.sq,
            tok.dq == gst.dq,
            tok.buf@ == gst.buf,
            strings_view(tok.args@) == gst.args,
            redirects_view(tok.redirects@) == gst.redirects,
            emode_rel(mode, gst.mode),
            state_wf(gst),
        decreases t@.len() - i,
    {
        let c = t[i];
        proof {
            let s_i = full.skip(i as int);
            assert(s_i.len() > 0);
            assert(s_i[0] == c);
            assert(s_i.drop_first() =~= full.skip(i + 1));
            lemma_pstep_wf(gst, c);
        }
        let m = mode;
        match m {
            EMode::Normal => {
                mode = normal_step_exec(&mut tok, c);
                proof {
                    gst = normal_step(gst, c);
                }
            },
            EMode::SawGt { fd } => {
                if c == '>' {
                    mode = EMode::PathStart { fd, append: true };
                } else if c == '@' {
                    mode = EMode::DupDigits { fd, val: 0, seen: false, big: false };
                } else {
                    mode = path_start_exec(fd, false, c);
                }
                proof {
                    gst = pstep(gst, c)->Ok_0;
                }
            },
            EMode::PathStart { fd, append } => {
                mode = path_start_exec(fd, append, c);
                proof {
                    gst = pstep(gst, c)->Ok_0;
                }
            },
            EMode::PathToken { fd, append, psq, pdq, mut path } => {
                if c == '\'' {
                    if pdq {
                        path.push(c);
                        mode = EMode::PathToken { fd, append, psq, pdq, path };
                    } else {
                        mode = EMode::PathToken { fd, append, psq: !psq, pdq, path };
                    }
                } else if c == '"' {
                    if psq {
                        path.push(c);
                        mode = EMode::PathToken { fd, append, psq, pdq, path };
                    } else {
                        mode = EMode::PathToken { fd, append, psq, pdq: !pdq, path };
                    }
                } else if c == ' ' && !psq && !pdq {
                    push_file_redirect(&mut tok, fd, append, path);
                    mode = EMode::Normal;
                } else {
                    path.push(c);
                    mode = EMode::PathToken { fd, append, psq, pdq, path };
                }
                proof {
                    gst = pstep(gst, c)->Ok_0;
                }
            },
            EMode::DupDigits { fd, val, seen, big } => {
                if is_digit(c) {
                    if !big {
                        let d: u32 = c as u32 - 48;
                        let next: u64 = val * 10 + d as u64;
                        if next > i32::MAX as u64 {
                            mode = EMode::DupDigits { fd, val: 0, seen: true, big: true };
                        } else {
                            mode = EMode::DupDigits { fd, val: next, seen: true, big: false };
                        }
                    } else {
                        mode = EMode::DupDigits { fd, val: 0, seen: true, big: true };
                    }
                    proof {
                        gst = pstep(gst, c)->Ok_0;
                    }
                } else if !seen {
                    proof {
                        assert(pfold(init_state(), full) == Err::<PState, ParseError>(
                            ParseError::MissingDuplicateDescriptor,
                        ));
                    }
                    return Err(ParseError::MissingDuplicateDescriptor);
                } else if big {
                    proof {
                        assert(pfold(init_state(), full) == Err::<PState, ParseError>(
                            ParseError::DescriptorOutOfRange,
                        ));
                    }
                    return Err(ParseError::DescriptorOutOfRange);
                } else {
                    push_dup_redirect(&mut tok, fd, val as i32);
                    mode = normal_step_exec(&mut tok, c);
                    proof {
                        gst = pstep(gst, c)->Ok_0;
                    }
                }
            },
        }
        i = i + 1;
    }
    proof {
        assert(full.skip(full.len() as int) =~= Seq::<char>::empty());
        assert(pfold(init_state(), full) == Ok::<PState, ParseError>(gst));
    }
    let m = mode;
    match m {
        EMode::Normal => {
            match finish_exec(tok) {
                Some(c) => Ok(Some(c)),
                None => Ok(None),
            }
        },
        EMode::SawGt { .. } => Err(ParseError::DanglingRedirect),
        EMode::PathStart { .. } => Err(ParseError::DanglingRedirect),
        EMode::PathToken { fd, append, psq: _, pdq: _, path } => {
            push_file_redirect(&mut tok, fd, append, path);
            match finish_exec(tok) {
                Some(c) => Ok(Some(c)),
                None => Ok(None),
            }
        },
        EMode::DupDigits { fd, val, seen, big } => {
            if !seen {
                Err(ParseError::MissingDuplicateDescriptor)
            } else if big {
                Err(ParseError::DescriptorOutOfRange)
            } else {
                push_dup_redirect(&mut tok, fd, val as i32);
                match finish_exec(tok) {
                    Some(c) => Ok(Some(c)),
                    None => Ok(None),
                }
            }
        },
    }
}

} // verus!

