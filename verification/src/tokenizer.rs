//! The command-line tokenizer: splits one command line into parameter
//! tokens under quoting, comment and delimiter rules, and substitutes
//! variable references through an optional variable table.
//!
//! The scanner's behaviour is stated against a mathematical model: a
//! `ScanState` carries the buffer, cursor and delimiter configuration, and
//! `token_text` / `token_step` say which text one extraction yields and
//! where it leaves the scanner.

use vstd::prelude::*;

use crate::text::find_char;
use crate::text::str_contains_char;
use crate::text::str_find_char;
use crate::vars::ParserVar;

verus! {

/// The single-character comment marker (the two-character marker is `//`).
pub const COMMENT_CHAR: char = '!';

/// The scanner's mathematical state: the loaded buffer, the cursor, the
/// delimiter configuration, and the delimiter and quote flags the last
/// extraction recorded.
#[verifier::ext_equal]
pub struct ScanState {
    /// The loaded command line.
    pub buf: Seq<char>,
    /// The cursor: a character index into `buf`, never past its end.
    pub pos: int,
    /// The whitespace characters.
    pub ws: Seq<char>,
    /// The separator characters.
    pub seps: Seq<char>,
    /// The quote-open characters, paired positionally with `qc`.
    pub qo: Seq<char>,
    /// The quote-close characters.
    pub qc: Seq<char>,
    /// The character that ended the most recent raw token scan.
    pub delim: char,
    /// Whether the current token came from a quoted span.
    pub quoted: bool,
}

/// The same state with the recorded delimiter replaced.
pub open spec fn with_delim(st: ScanState, d: char) -> ScanState {
    ScanState { delim: d, ..st }
}

/// A comment starts at `i`: a bare `!`, or `//` read with one character of
/// lookahead that never reaches past the buffer end.
pub open spec fn is_comment_start(buf: Seq<char>, i: int) -> bool {
    buf[i] == '!' || (buf[i] == '/' && i + 1 < buf.len() && buf[i + 1] == '/')
}

/// Position `i` ends a raw token: a comment start, a separator character or
/// a whitespace character.
pub open spec fn is_delim_at(buf: Seq<char>, ws: Seq<char>, seps: Seq<char>, i: int) -> bool {
    is_comment_start(buf, i) || seps.contains(buf[i]) || ws.contains(buf[i])
}

/// The first delimiter position at or after `i`, or the buffer end.
pub open spec fn scan_end(buf: Seq<char>, ws: Seq<char>, seps: Seq<char>, i: int) -> int
    decreases buf.len() - i,
{
    if i < 0 || i >= buf.len() {
        buf.len() as int
    } else if is_delim_at(buf, ws, seps, i) {
        i
    } else {
        scan_end(buf, ws, seps, i + 1)
    }
}

/// The first non-whitespace position at or after `i`, or the buffer end.
pub open spec fn ws_end(buf: Seq<char>, ws: Seq<char>, i: int) -> int
    decreases buf.len() - i,
{
    if i < 0 || i >= buf.len() {
        buf.len() as int
    } else if ws.contains(buf[i]) {
        ws_end(buf, ws, i + 1)
    } else {
        i
    }
}

/// The first occurrence of the close character at or after `i`, or the
/// buffer end (an unterminated quote is not an error).
pub open spec fn close_end(buf: Seq<char>, close: char, i: int) -> int
    decreases buf.len() - i,
{
    if i < 0 || i >= buf.len() {
        buf.len() as int
    } else if buf[i] == close {
        i
    } else {
        close_end(buf, close, i + 1)
    }
}

/// The cursor stands on a configured quote-open character.
pub open spec fn at_quote(st: ScanState) -> bool {
    find_char(st.qo, st.buf[st.pos]) is Some
}

/// The close character paired positionally with the open character under
/// the cursor; `None` when the close configuration is shorter than the open
/// character's ordinal position.
pub open spec fn quote_close(st: ScanState) -> Option<char> {
    match find_char(st.qo, st.buf[st.pos]) {
        Some(i) => if i < st.qc.len() {
            Some(st.qc[i])
        } else {
            None
        },
        None => None,
    }
}

/// The text one extraction yields from `st`: the empty sequence on an
/// exhausted buffer, the verbatim span to the positionally paired close
/// character (or buffer end) on a quote, and the run to the first delimiter
/// otherwise.
pub open spec fn token_text(st: ScanState) -> Seq<char> {
    if !(0 <= st.pos < st.buf.len()) {
        Seq::<char>::empty()
    } else if at_quote(st) {
        match quote_close(st) {
            Some(c) => st.buf.subrange(st.pos + 1, close_end(st.buf, c, st.pos + 1)),
            None => st.buf.subrange(st.pos + 1, st.buf.len() as int),
        }
    } else {
        st.buf.subrange(st.pos, scan_end(st.buf, st.ws, st.seps, st.pos))
    }
}

/// The scanner state one extraction leaves: the cursor moves past the token
/// (and past a close character or a separator, and over trailing
/// whitespace; to the buffer end on a comment), the delimiter records the
/// character that ended a raw scan, and the quote flag records whether the
/// token came from a quoted span.
pub open spec fn token_step(st: ScanState) -> ScanState {
    if !(0 <= st.pos < st.buf.len()) {
        st
    } else if at_quote(st) {
        let newpos = match quote_close(st) {
            Some(c) => {
                let j = close_end(st.buf, c, st.pos + 1);
                if j < st.buf.len() {
                    j + 1
                } else {
                    j
                }
            },
            None => st.buf.len() as int,
        };
        ScanState { pos: newpos, quoted: true, ..st }
    } else {
        let e = scan_end(st.buf, st.ws, st.seps, st.pos);
        if e >= st.buf.len() {
            ScanState { pos: e, quoted: false, ..st }
        } else {
            let d = st.buf[e];
            let newpos = if is_comment_start(st.buf, e) {
                st.buf.len() as int
            } else if st.seps.contains(d) {
                ws_end(st.buf, st.ws, e + 1)
            } else {
                ws_end(st.buf, st.ws, e)
            };
            ScanState { pos: newpos, delim: d, quoted: false, ..st }
        }
    }
}

/// `scan_end` names the first delimiter position: it lies between `i` and
/// the buffer end, nothing before it delimits, and it delimits itself
/// unless it is the buffer end.
pub proof fn lemma_scan_end(buf: Seq<char>, ws: Seq<char>, seps: Seq<char>, i: int)
    requires
        0 <= i <= buf.len(),
    ensures
        i <= scan_end(buf, ws, seps, i) <= buf.len(),
        forall|k: int| i <= k < scan_end(buf, ws, seps, i) ==> !is_delim_at(buf, ws, seps, k),
        scan_end(buf, ws, seps, i) < buf.len() ==> is_delim_at(
            buf,
            ws,
            seps,
            scan_end(buf, ws, seps, i),
        ),
    decreases buf.len() - i,
{
    if i < buf.len() && !is_delim_at(buf, ws, seps, i) {
        lemma_scan_end(buf, ws, seps, i + 1);
    }
}

/// `close_end` names the first occurrence of the close character at or
/// after `i`: nothing before it matches, and it matches itself unless it is
/// the buffer end.
pub proof fn lemma_close_end(buf: Seq<char>, close: char, i: int)
    requires
        0 <= i <= buf.len(),
    ensures
        i <= close_end(buf, close, i) <= buf.len(),
        forall|k: int| i <= k < close_end(buf, close, i) ==> buf[k] != close,
        close_end(buf, close, i) < buf.len() ==> buf[close_end(buf, close, i)] == close,
    decreases buf.len() - i,
{
    if i < buf.len() && buf[i] != close {
        lemma_close_end(buf, close, i + 1);
    }
}

/// Where a variable token is cut into name and suffix: at the first `^`
/// when the token holds one, otherwise at the first `.`, otherwise nowhere.
pub open spec fn var_cut(tok: Seq<char>) -> Option<int> {
    match find_char(tok, '^') {
        Some(i) => Some(i),
        None => find_char(tok, '.'),
    }
}

/// The variable name a token references: the token up to its cut point, or
/// the whole token.
pub open spec fn var_name_of(tok: Seq<char>) -> Seq<char> {
    match var_cut(tok) {
        Some(i) => tok.subrange(0, i),
        None => tok,
    }
}

/// The suffix a substitution preserves: the token from its cut point on, or
/// nothing.
pub open spec fn var_suffix_of(tok: Seq<char>) -> Seq<char> {
    match var_cut(tok) {
        Some(i) => tok.subrange(i, tok.len() as int),
        None => Seq::<char>::empty(),
    }
}

/// A token is checked for substitution when it is longer than one character
/// and begins with the variable sigil.
pub open spec fn is_var_token(tok: Seq<char>) -> bool {
    tok.len() > 1 && tok[0] == '@'
}

/// A stored value marked "insert verbatim": wrapped in `{...}`.
pub open spec fn is_wrapped(v: Seq<char>) -> bool {
    v.len() >= 2 && v[0] == '{' && v[v.len() - 1] == '}'
}

/// Substitution fires: the token references a variable, a table is
/// attached, and the table holds the referenced name.
pub open spec fn subst_applies(vars: Option<ParserVar>, tok: Seq<char>) -> bool {
    &&& is_var_token(tok)
    &&& vars is Some
    &&& vars->0.entries().dom().contains(var_name_of(tok))
}

/// The token after one substitution attempt: on a hit the stored value
/// (stripped of its braces when wrapped) splices in place of the name
/// prefix, preserving the suffix; otherwise the token is unmodified.
pub open spec fn subst_text(vars: Option<ParserVar>, tok: Seq<char>) -> Seq<char> {
    if subst_applies(vars, tok) {
        let v = vars->0.entries()[var_name_of(tok)];
        if is_wrapped(v) {
            v.subrange(1, v.len() - 1) + var_suffix_of(tok)
        } else {
            v + var_suffix_of(tok)
        }
    } else {
        tok
    }
}

/// Substitution marks the token quoted exactly when it spliced a wrapped
/// value.
pub open spec fn subst_marks_quoted(vars: Option<ParserVar>, tok: Seq<char>) -> bool {
    subst_applies(vars, tok) && is_wrapped(vars->0.entries()[var_name_of(tok)])
}

/// How a substitution attempt on `tok` moves the attached table from `v0`
/// to `v1`: a variable token drives one `lookup`, which keeps the entries
/// and sets the cursor to the name on a hit and clears it on a miss; any
/// other token leaves the table untouched.
pub open spec fn subst_vars_post(
    v0: Option<ParserVar>,
    tok: Seq<char>,
    v1: Option<ParserVar>,
) -> bool {
    if is_var_token(tok) && v0 is Some {
        &&& v1 is Some
        &&& v1->0.entries() == v0->0.entries()
        &&& v1->0.active() == if v0->0.entries().dom().contains(var_name_of(tok)) {
            Some(var_name_of(tok))
        } else {
            None::<Seq<char>>
        }
    } else {
        v1 == v0
    }
}

/// The command-line tokenizer: a loaded command buffer with a cursor, the
/// name and value buffers of the most recent parameter, the delimiter
/// configuration, and an optional variable table consulted for
/// substitution.
#[derive(Debug)]
pub struct DSSParser {
    parser_vars: Option<ParserVar>,
    cmd_buffer: String,
    position: usize,
    parameter_buffer: String,
    token_buffer: String,
    delim_chars: String,
    whitespace_chars: String,
    begin_quote_chars: String,
    end_quote_chars: String,
    last_delimiter: char,
    matrix_row_terminator: char,
    auto_increment: bool,
    is_quoted_string: bool,
}

/// The delimiter configuration of both states agrees.
pub open spec fn same_config(a: DSSParser, b: DSSParser) -> bool {
    &&& a.scan_state().ws == b.scan_state().ws
    &&& a.scan_state().seps == b.scan_state().seps
    &&& a.scan_state().qo == b.scan_state().qo
    &&& a.scan_state().qc == b.scan_state().qc
    &&& a.row_terminator() == b.row_terminator()
    &&& a.auto_inc() == b.auto_inc()
}

impl DSSParser {
    /// The scanner's mathematical state.
    pub closed spec fn scan_state(self) -> ScanState {
        ScanState {
            buf: self.cmd_buffer@,
            pos: self.position as int,
            ws: self.whitespace_chars@,
            seps: self.delim_chars@,
            qo: self.begin_quote_chars@,
            qc: self.end_quote_chars@,
            delim: self.last_delimiter,
            quoted: self.is_quoted_string,
        }
    }

    /// The attached variable table, if any.
    pub closed spec fn vars(self) -> Option<ParserVar> {
        self.parser_vars
    }

    /// The most recently extracted token (the candidate value).
    pub closed spec fn token_view(self) -> Seq<char> {
        self.token_buffer@
    }

    /// The most recently extracted parameter name.
    pub closed spec fn param_view(self) -> Seq<char> {
        self.parameter_buffer@
    }

    /// The matrix-row terminator character.
    pub closed spec fn row_terminator(self) -> char {
        self.matrix_row_terminator
    }

    /// The auto-increment flag.
    pub closed spec fn auto_inc(self) -> bool {
        self.auto_increment
    }

    /// Internal validity: the cursor never exceeds the buffer length, and
    /// an attached variable table is itself valid.
    pub open spec fn wf(self) -> bool {
        &&& 0 <= self.scan_state().pos <= self.scan_state().buf.len()
        &&& match self.vars() {
            Some(v) => v.wf(),
            None => true,
        }
    }

    /// A fresh tokenizer with the default configuration: whitespace space
    /// and tab, separators comma and equals, quote-open characters
    /// `( " ' [ {` paired positionally with the quote-close characters
    /// `) } ' ]` (the default pairing is asymmetric by design), the
    /// matrix-row terminator `|`, no variable table and an empty buffer.
    pub fn new() -> (r: Self)
        ensures
            r.wf(),
            r.vars() is None,
            r.scan_state().buf == Seq::<char>::empty(),
            r.scan_state().pos == 0,
            r.scan_state().ws == " \t"@,
            r.scan_state().seps == ",="@,
            r.scan_state().qo == "(\"'[{"@,
            r.scan_state().qc == ")}']"@,
            r.scan_state().delim == ' ',
            r.scan_state().quoted == false,
            r.token_view() == Seq::<char>::empty(),
            r.param_view() == Seq::<char>::empty(),
            r.row_terminator() == '|',
            r.auto_inc() == false,
    {
        DSSParser {
            parser_vars: None,
            cmd_buffer: String::new(),
            position: 0,
            parameter_buffer: String::new(),
            token_buffer: String::new(),
            delim_chars: ",=".to_owned(),
            whitespace_chars: " \t".to_owned(),
            begin_quote_chars: "(\"'[{".to_owned(),
            end_quote_chars: ")}']".to_owned(),
            last_delimiter: ' ',
            matrix_row_terminator: '|',
            auto_increment: false,
            is_quoted_string: false,
        }
    }

    /// Advances the cursor over a run of whitespace characters.
    fn skip_whitespace(&mut self)
        requires
            old(self).wf(),
        ensures
            final(self).wf(),
            final(self).scan_state() == (ScanState {
                pos: ws_end(
                    old(self).scan_state().buf,
                    old(self).scan_state().ws,
                    old(self).scan_state().pos,
                ),
                ..old(self).scan_state()
            }),
            final(self).token_view() == old(self).token_view(),
            final(self).param_view() == old(self).param_view(),
            final(self).vars() == old(self).vars(),
            same_config(*old(self), *final(self)),
    {
        let ghost buf = old(self).scan_state().buf;
        let ghost wsc = old(self).scan_state().ws;
        let n = self.cmd_buffer.as_str().unicode_len();
        loop
            invariant
                self.wf(),
                n == self.scan_state().buf.len(),
                self.scan_state().buf == buf,
                self.scan_state().ws == wsc,
                self.scan_state().seps == old(self).scan_state().seps,
                self.scan_state().qo == old(self).scan_state().qo,
                self.scan_state().qc == old(self).scan_state().qc,
                self.scan_state().delim == old(self).scan_state().delim,
                self.scan_state().quoted == old(self).scan_state().quoted,
                self.token_view() == old(self).token_view(),
                self.param_view() == old(self).param_view(),
                self.vars() == old(self).vars(),
                self.row_terminator() == old(self).row_terminator(),
                self.auto_inc() == old(self).auto_inc(),
                ws_end(buf, wsc, old(self).scan_state().pos) == ws_end(
                    buf,
                    wsc,
                    self.scan_state().pos,
                ),
            ensures
                self.scan_state().pos == ws_end(buf, wsc, old(self).scan_state().pos),
            decreases n - self.position,
        {
            if self.position >= n {
                break ;
            }
            let c = self.cmd_buffer.as_str().get_char(self.position);
            if !str_contains_char(self.whitespace_chars.as_str(), c) {
                break ;
            }
            self.position = self.position + 1;
        }
        proof {
            assert(final(self).scan_state() =~= (ScanState {
                pos: ws_end(buf, wsc, old(self).scan_state().pos),
                ..old(self).scan_state()
            }));
        }
    }

    /// Whether position `i` of the buffer ends a raw token.
    fn delim_here(&self, i: usize, n: usize) -> (r: bool)
        requires
            self.wf(),
            n == self.scan_state().buf.len(),
            i < n,
        ensures
            r == is_delim_at(
                self.scan_state().buf,
                self.scan_state().ws,
                self.scan_state().seps,
                i as int,
            ),
    {
        let c = self.cmd_buffer.as_str().get_char(i);
        if c == '!' {
            return true;
        }
        if c == '/' && i + 1 < n && self.cmd_buffer.as_str().get_char(i + 1) == '/' {
            return true;
        }
        if str_contains_char(self.delim_chars.as_str(), c) {
            return true;
        }
        str_contains_char(self.whitespace_chars.as_str(), c)
    }

    /// Extracts one raw token: a verbatim quoted span when the cursor
    /// stands on a quote-open character, otherwise the run to the first
    /// delimiter; records the terminating delimiter, jumps to the buffer
    /// end on a comment marker, and skips a separator and trailing
    /// whitespace.
    fn get_token(&mut self) -> (tok: String)
        requires
            old(self).wf(),
        ensures
            final(self).wf(),
            tok@ == token_text(old(self).scan_state()),
            final(self).scan_state() == token_step(old(self).scan_state()),
            final(self).token_view() == old(self).token_view(),
            final(self).param_view() == old(self).param_view(),
            final(self).vars() == old(self).vars(),
            same_config(*old(self), *final(self)),
    {
        let ghost st0 = old(self).scan_state();
        let n = self.cmd_buffer.as_str().unicode_len();
        if self.position >= n {
            return String::new();
        }
        self.is_quoted_string = false;
        let ch = self.cmd_buffer.as_str().get_char(self.position);
        let qidx = str_find_char(self.begin_quote_chars.as_str(), ch);
        match qidx {
            Some(qi) => {
                self.is_quoted_string = true;
                self.position = self.position + 1;
                let start = self.position;
                let qclen = self.end_quote_chars.as_str().unicode_len();
                if qi < qclen {
                    let close = self.end_quote_chars.as_str().get_char(qi);
                    proof {
                        assert(quote_close(st0) == Some(close));
                    }
                    loop
                        invariant
                            self.wf(),
                            n == self.scan_state().buf.len(),
                            start <= self.position <= n,
                            self.scan_state() == (ScanState {
                                pos: self.position as int,
                                quoted: true,
                                ..st0
                            }),
                            self.token_view() == old(self).token_view(),
                            self.param_view() == old(self).param_view(),
                            self.vars() == old(self).vars(),
                            self.row_terminator() == old(self).row_terminator(),
                            self.auto_inc() == old(self).auto_inc(),
                            close_end(st0.buf, close, start as int) == close_end(
                                st0.buf,
                                close,
                                self.position as int,
                            ),
                        ensures
                            self.position == close_end(st0.buf, close, start as int),
                            self.scan_state() == (ScanState {
                                pos: self.position as int,
                                quoted: true,
                                ..st0
                            }),
                            self.token_view() == old(self).token_view(),
                            self.param_view() == old(self).param_view(),
                            self.vars() == old(self).vars(),
                            self.row_terminator() == old(self).row_terminator(),
                            self.auto_inc() == old(self).auto_inc(),
                            n == self.scan_state().buf.len(),
                            start <= self.position <= n,
                        decreases n - self.position,
                    {
                        if self.position >= n {
                            break ;
                        }
                        if self.cmd_buffer.as_str().get_char(self.position) == close {
                            break ;
                        }
                        self.position = self.position + 1;
                    }
                    let tok_slice = self.cmd_buffer.as_str().substring_char(start, self.position);
                    let tok = tok_slice.to_owned();
                    if self.position < n {
                        self.position = self.position + 1;
                    }
                    proof {
                        assert(final(self).scan_state() =~= token_step(st0));
                    }
                    tok
                } else {
                    proof {
                        assert(quote_close(st0) is None);
                    }
                    let tok_slice = self.cmd_buffer.as_str().substring_char(start, n);
                    let tok = tok_slice.to_owned();
                    self.position = n;
                    proof {
                        assert(final(self).scan_state() =~= token_step(st0));
                    }
                    tok
                }
            },
            None => {
                let start = self.position;
                loop
                    invariant
                        self.wf(),
                        n == self.scan_state().buf.len(),
                        start <= self.position <= n,
                        self.scan_state() == (ScanState {
                            pos: self.position as int,
                            quoted: false,
                            ..st0
                        }),
                        self.token_view() == old(self).token_view(),
                        self.param_view() == old(self).param_view(),
                        self.vars() == old(self).vars(),
                        self.row_terminator() == old(self).row_terminator(),
                        self.auto_inc() == old(self).auto_inc(),
                        scan_end(st0.buf, st0.ws, st0.seps, start as int) == scan_end(
                            st0.buf,
                            st0.ws,
                            st0.seps,
                            self.position as int,
                        ),
                    ensures
                        self.position == scan_end(st0.buf, st0.ws, st0.seps, start as int),
                        self.scan_state() == (ScanState {
                            pos: self.position as int,
                            quoted: false,
                            ..st0
                        }),
                        self.token_view() == old(self).token_view(),
                        self.param_view() == old(self).param_view(),
                        self.vars() == old(self).vars(),
                        self.row_terminator() == old(self).row_terminator(),
                        self.auto_inc() == old(self).auto_inc(),
                        n == self.scan_state().buf.len(),
                        start <= self.position <= n,
                    decreases n - self.position,
                {
                    if self.position >= n {
                        break ;
                    }
                    if self.delim_here(self.position, n) {
                        break ;
                    }
                    self.position = self.position + 1;
                }
                let tok_slice = self.cmd_buffer.as_str().substring_char(start, self.position);
                let tok = tok_slice.to_owned();
                if self.position < n {
                    let d = self.cmd_buffer.as_str().get_char(self.position);
                    self.last_delimiter = d;
                    let comment = d == '!' || (d == '/' && self.position + 1 < n
                        && self.cmd_buffer.as_str().get_char(self.position + 1) == '/');
                    if comment {
                        self.position = n;
                    } else {
                        if str_contains_char(self.delim_chars.as_str(), d) {
                            self.position = self.position + 1;
                        }
                        self.skip_whitespace();
                    }
                }
                proof {
                    assert(final(self).scan_state() =~= token_step(st0));
                }
                tok
            },
        }
    }

    /// Attempts variable substitution on the token buffer and reports
    /// whether the buffer is unchanged afterwards (true = no substitution
    /// occurred); the attempt moves the attached table's cursor.
    fn check_for_var(&mut self) -> (unchanged: bool)
        requires
            old(self).wf(),
        ensures
            final(self).wf(),
            final(self).token_view() == subst_text(old(self).vars(), old(self).token_view()),
            final(self).scan_state().quoted == (old(self).scan_state().quoted
                || subst_marks_quoted(old(self).vars(), old(self).token_view())),
            subst_vars_post(old(self).vars(), old(self).token_view(), final(self).vars()),
            unchanged == (final(self).token_view() == old(self).token_view()),
            final(self).param_view() == old(self).param_view(),
            final(self).scan_state().buf == old(self).scan_state().buf,
            final(self).scan_state().pos == old(self).scan_state().pos,
            final(self).scan_state().delim == old(self).scan_state().delim,
            same_config(*old(self), *final(self)),
    {
        let ghost tok0 = old(self).token_view();
        let original = self.token_buffer.clone();
        let tlen = self.token_buffer.as_str().unicode_len();
        if tlen > 1 && self.token_buffer.as_str().get_char(0) == crate::vars::VARIABLE_DELIMITER {
            let cut: Option<usize> = match str_find_char(self.token_buffer.as_str(), '^') {
                Some(p) => Some(p),
                None => str_find_char(self.token_buffer.as_str(), '.'),
            };
            proof {
                crate::text::lemma_find_from(tok0, '^', 0);
                crate::text::lemma_find_from(tok0, '.', 0);
            }
            let name: String = match cut {
                Some(p) => self.token_buffer.as_str().substring_char(0, p).to_owned(),
                None => self.token_buffer.clone(),
            };
            proof {
                assert(tok0.subrange(0, tok0.len() as int) =~= tok0);
                assert(name@ == var_name_of(tok0));
            }
            let looked: Option<String> = match &mut self.parser_vars {
                Some(vars) => {
                    if vars.lookup(name.as_str()) {
                        Some(vars.get_value())
                    } else {
                        None
                    }
                },
                None => None,
            };
            match looked {
                Some(value) => {
                    let vlen = value.as_str().unicode_len();
                    let wrapped = vlen >= 2 && value.as_str().get_char(0) == '{'
                        && value.as_str().get_char(vlen - 1) == '}';
                    let body: &str = if wrapped {
                        value.as_str().substring_char(1, vlen - 1)
                    } else {
                        value.as_str()
                    };
                    let mut newtok: String = body.to_owned();
                    match cut {
                        Some(p) => {
                            let suffix = self.token_buffer.as_str().substring_char(p, tlen);
                            newtok.append(suffix);
                        },
                        None => {
                            proof {
                                assert(newtok@ =~= newtok@ + var_suffix_of(tok0));
                            }
                        },
                    }
                    self.token_buffer = newtok;
                    if wrapped {
                        self.is_quoted_string = true;
                    }
                },
                None => {},
            }
        }
        let unchanged = self.token_buffer == original;
        unchanged
    }

    /// Attaches a variable table for substitution.
    pub fn set_vars(&mut self, vars: ParserVar)
        requires
            old(self).wf(),
            vars.wf(),
        ensures
            final(self).wf(),
            final(self).vars() == Some(vars),
            final(self).scan_state() == old(self).scan_state(),
            final(self).token_view() == old(self).token_view(),
            final(self).param_view() == old(self).param_view(),
            same_config(*old(self), *final(self)),
    {
        self.parser_vars = Some(vars);
        proof {
            assert(final(self).scan_state() =~= old(self).scan_state());
        }
    }

    /// Loads a new command line and rests the cursor on its first
    /// non-whitespace character.
    pub fn set_cmd_string(&mut self, value: &str)
        requires
            old(self).wf(),
        ensures
            final(self).wf(),
            final(self).scan_state().buf == value@,
            final(self).scan_state().pos == ws_end(value@, old(self).scan_state().ws, 0),
            final(self).scan_state().delim == old(self).scan_state().delim,
            final(self).scan_state().quoted == old(self).scan_state().quoted,
            final(self).token_view() == old(self).token_view(),
            final(self).param_view() == old(self).param_view(),
            final(self).vars() == old(self).vars(),
            same_config(*old(self), *final(self)),
    {
        self.cmd_buffer = value.to_owned();
        self.position = 0;
        self.skip_whitespace();
    }

    /// Advances one parameter: extracts a token, takes it as the parameter
    /// name exactly when the delimiter that ended it was `=` (then extracts
    /// a second token as the value), runs variable substitution on the
    /// value, and returns the name — empty when no `=` was present or the
    /// buffer is exhausted.
    pub fn next_param(&mut self) -> (name: String)
        requires
            old(self).wf(),
        ensures
            final(self).wf(),
            name@ == final(self).param_view(),
            final(self).scan_state().buf == old(self).scan_state().buf,
            final(self).vars() is Some <==> old(self).vars() is Some,
            same_config(*old(self), *final(self)),
            next_param_post(*old(self), *final(self)),
    {
        let n = self.cmd_buffer.as_str().unicode_len();
        if self.position < n {
            self.last_delimiter = ' ';
            proof {
                assert(self.scan_state() =~= with_delim(old(self).scan_state(), ' '));
            }
            let tok = self.get_token();
            self.token_buffer = tok;
            if self.last_delimiter == '=' {
                self.parameter_buffer = self.token_buffer.clone();
                let tok2 = self.get_token();
                self.token_buffer = tok2;
            } else {
                self.parameter_buffer = String::new();
            }
        } else {
            self.parameter_buffer = String::new();
            self.token_buffer = String::new();
        }
        self.check_for_var();
        self.parameter_buffer.clone()
    }

    /// The current token (the candidate value); with the auto-increment
    /// flag set the read first advances one parameter.
    pub fn make_string(&mut self) -> (t: String)
        requires
            old(self).wf(),
        ensures
            final(self).wf(),
            t@ == final(self).token_view(),
            final(self).scan_state().buf == old(self).scan_state().buf,
            same_config(*old(self), *final(self)),
            if old(self).auto_inc() {
                next_param_post(*old(self), *final(self))
            } else {
                *final(self) == *old(self)
            },
    {
        if self.auto_increment {
            self.next_param();
        }
        self.token_buffer.clone()
    }

    /// Whether the current token came from a quoted span (or spliced a
    /// wrapped variable value): the signal to attempt inline-math
    /// evaluation rather than plain numeric parsing.
    pub fn is_quoted(&self) -> (r: bool)
        ensures
            r == self.scan_state().quoted,
    {
        self.is_quoted_string
    }

    /// The character that ended the most recent raw token scan.
    pub fn get_last_delimiter(&self) -> (d: char)
        ensures
            d == self.scan_state().delim,
    {
        self.last_delimiter
    }

    /// Replaces the separator characters.
    pub fn set_delim_chars(&mut self, chars: &str)
        requires
            old(self).wf(),
        ensures
            final(self).wf(),
            final(self).scan_state() == (ScanState { seps: chars@, ..old(self).scan_state() }),
            final(self).token_view() == old(self).token_view(),
            final(self).param_view() == old(self).param_view(),
            final(self).vars() == old(self).vars(),
            final(self).row_terminator() == old(self).row_terminator(),
            final(self).auto_inc() == old(self).auto_inc(),
    {
        self.delim_chars = chars.to_owned();
        proof {
            assert(final(self).scan_state() =~= (ScanState {
                seps: chars@,
                ..old(self).scan_state()
            }));
        }
    }

    /// Replaces the whitespace characters.
    pub fn set_whitespace_chars(&mut self, chars: &str)
        requires
            old(self).wf(),
        ensures
            final(self).wf(),
            final(self).scan_state() == (ScanState { ws: chars@, ..old(self).scan_state() }),
            final(self).token_view() == old(self).token_view(),
            final(self).param_view() == old(self).param_view(),
            final(self).vars() == old(self).vars(),
            final(self).row_terminator() == old(self).row_terminator(),
            final(self).auto_inc() == old(self).auto_inc(),
    {
        self.whitespace_chars = chars.to_owned();
        proof {
            assert(final(self).scan_state() =~= (ScanState {
                ws: chars@,
                ..old(self).scan_state()
            }));
        }
    }

    /// Replaces the quote-open and quote-close characters; the Nth open
    /// character pairs with the Nth close character.
    pub fn set_quote_chars(&mut self, begin: &str, end: &str)
        requires
            old(self).wf(),
        ensures
            final(self).wf(),
            final(self).scan_state() == (ScanState {
                qo: begin@,
                qc: end@,
                ..old(self).scan_state()
            }),
            final(self).token_view() == old(self).token_view(),
            final(self).param_view() == old(self).param_view(),
            final(self).vars() == old(self).vars(),
            final(self).row_terminator() == old(self).row_terminator(),
            final(self).auto_inc() == old(self).auto_inc(),
    {
        self.begin_quote_chars = begin.to_owned();
        self.end_quote_chars = end.to_owned();
        proof {
            assert(final(self).scan_state() =~= (ScanState {
                qo: begin@,
                qc: end@,
                ..old(self).scan_state()
            }));
        }
    }

    /// Replaces the matrix-row terminator character.
    pub fn set_matrix_row_terminator(&mut self, c: char)
        requires
            old(self).wf(),
        ensures
            final(self).wf(),
            final(self).row_terminator() == c,
            final(self).scan_state() == old(self).scan_state(),
            final(self).token_view() == old(self).token_view(),
            final(self).param_view() == old(self).param_view(),
            final(self).vars() == old(self).vars(),
            final(self).auto_inc() == old(self).auto_inc(),
    {
        self.matrix_row_terminator = c;
        proof {
            assert(final(self).scan_state() =~= old(self).scan_state());
        }
    }

    /// Sets whether value-reading accessors implicitly advance one
    /// parameter first.
    pub fn set_auto_increment(&mut self, on: bool)
        requires
            old(self).wf(),
        ensures
            final(self).wf(),
            final(self).auto_inc() == on,
            final(self).scan_state() == old(self).scan_state(),
            final(self).token_view() == old(self).token_view(),
            final(self).param_view() == old(self).param_view(),
            final(self).vars() == old(self).vars(),
            final(self).row_terminator() == old(self).row_terminator(),
    {
        self.auto_increment = on;
        proof {
            assert(final(self).scan_state() =~= old(self).scan_state());
        }
    }

    /// Restores the default delimiter configuration.
    pub fn reset_delims(&mut self)
        requires
            old(self).wf(),
        ensures
            final(self).wf(),
            final(self).scan_state() == (ScanState {
                ws: " \t"@,
                seps: ",="@,
                qo: "(\"'[{"@,
                qc: ")}']"@,
                ..old(self).scan_state()
            }),
            final(self).token_view() == old(self).token_view(),
            final(self).param_view() == old(self).param_view(),
            final(self).vars() == old(self).vars(),
            final(self).row_terminator() == '|',
            final(self).auto_inc() == old(self).auto_inc(),
    {
        self.delim_chars = ",=".to_owned();
        self.whitespace_chars = " \t".to_owned();
        self.begin_quote_chars = "(\"'[{".to_owned();
        self.end_quote_chars = ")}']".to_owned();
        self.matrix_row_terminator = '|';
        proof {
            assert(final(self).scan_state() =~= (ScanState {
                ws: " \t"@,
                seps: ",="@,
                qo: "(\"'[{"@,
                qc: ")}']"@,
                ..old(self).scan_state()
            }));
        }
    }
}

/// What one `next_param` call does: on an exhausted buffer it clears both
/// buffers and moves nothing; otherwise it extracts one token (with the
/// recorded delimiter reset to a space first), extracts a second one as the
/// value when the first ended on `=`, and runs variable substitution on the
/// value token.
pub open spec fn next_param_post(s0: DSSParser, s1: DSSParser) -> bool {
    let st0 = with_delim(s0.scan_state(), ' ');
    if 0 <= st0.pos < st0.buf.len() {
        let t1 = token_text(st0);
        let st1 = token_step(st0);
        let named = st1.delim == '=';
        let raw = if named {
            token_text(st1)
        } else {
            t1
        };
        let st2 = if named {
            token_step(st1)
        } else {
            st1
        };
        &&& s1.param_view() == if named {
            t1
        } else {
            Seq::<char>::empty()
        }
        &&& s1.token_view() == subst_text(s0.vars(), raw)
        &&& s1.scan_state().pos == st2.pos
        &&& s1.scan_state().delim == st2.delim
        &&& s1.scan_state().quoted == (st2.quoted || subst_marks_quoted(s0.vars(), raw))
        &&& subst_vars_post(s0.vars(), raw, s1.vars())
    } else {
        &&& s1.param_view() == Seq::<char>::empty()
        &&& s1.token_view() == Seq::<char>::empty()
        &&& s1.scan_state().pos == s0.scan_state().pos
        &&& s1.scan_state().delim == s0.scan_state().delim
        &&& s1.scan_state().quoted == s0.scan_state().quoted
        &&& s1.vars() == s0.vars()
    }
}

/// The delimiter one extraction records is either the one already recorded
/// or a character of the buffer.
pub proof fn lemma_step_delim(st: ScanState)
    requires
        0 <= st.pos <= st.buf.len(),
    ensures
        token_step(st).delim == st.delim || st.buf.contains(token_step(st).delim),
{
    if 0 <= st.pos < st.buf.len() && !at_quote(st) {
        lemma_scan_end(st.buf, st.ws, st.seps, st.pos);
        let e = scan_end(st.buf, st.ws, st.seps, st.pos);
        if e < st.buf.len() {
            assert(st.buf.contains(st.buf[e])) by {
                assert(st.buf[e] == st.buf[e]);
            }
        }
    }
}

/// Law: on a buffer holding no `=`, `next_param` returns an empty name:
/// the recorded delimiter starts as a space and can only become a buffer
/// character, so it is never `=`.
pub proof fn lemma_no_equals_no_name(s0: DSSParser, s1: DSSParser)
    requires
        s0.wf(),
        !s0.scan_state().buf.contains('='),
        next_param_post(s0, s1),
    ensures
        s1.param_view() == Seq::<char>::empty(),
{
    let st0 = with_delim(s0.scan_state(), ' ');
    if 0 <= st0.pos < st0.buf.len() {
        lemma_step_delim(st0);
        assert(token_step(st0).delim != '=');
    }
}

/// Law: a token that starts on the quote-open character at ordinal
/// position `i` consumes verbatim through the first occurrence of the
/// quote-close character at the same ordinal position — embedded delimiter
/// and comment characters included — or to the buffer end when none
/// follows, and is marked as quoted.
pub proof fn lemma_quote_pairing(st: ScanState, i: int)
    requires
        0 <= st.pos < st.buf.len(),
        find_char(st.qo, st.buf[st.pos]) == Some(i),
        0 <= i < st.qc.len(),
    ensures
        ({
            let c = st.qc[i];
            let j = close_end(st.buf, c, st.pos + 1);
            &&& st.pos + 1 <= j <= st.buf.len()
            &&& token_text(st) == st.buf.subrange(st.pos + 1, j)
            &&& forall|k: int| st.pos + 1 <= k < j ==> st.buf[k] != c
            &&& (j < st.buf.len() ==> st.buf[j] == c)
            &&& token_step(st).quoted
            &&& token_step(st).pos == if j < st.buf.len() {
                j + 1
            } else {
                j
            }
        }),
{
    lemma_close_end(st.buf, st.qc[i], st.pos + 1);
}

/// Law: a bare `!` or `//` met outside a quoted span ends tokenization for
/// the rest of the line: the extraction that meets it leaves the cursor at
/// the buffer end, and every later extraction yields the empty token and
/// moves nothing.
pub proof fn lemma_comment_truncates(st: ScanState)
    requires
        0 <= st.pos < st.buf.len(),
        !at_quote(st),
        scan_end(st.buf, st.ws, st.seps, st.pos) < st.buf.len(),
        is_comment_start(st.buf, scan_end(st.buf, st.ws, st.seps, st.pos)),
    ensures
        token_step(st).pos == st.buf.len(),
        token_text(token_step(st)) == Seq::<char>::empty(),
        token_step(token_step(st)) == token_step(st),
{
}


} // verus!
