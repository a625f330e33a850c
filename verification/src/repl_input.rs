//! REPL input: whether the lines typed so far leave a bracket open, and the
//! buffer that gathers lines until a command is complete.
use vstd::prelude::*;
use crate::text::{chars_of, join, join_strings, push_char, views_of};

verus! {

pub open spec fn is_opener(c: char) -> bool {
    c == '{' || c == '(' || c == '['
}

pub open spec fn is_closer(c: char) -> bool {
    c == '}' || c == ')' || c == ']'
}

pub open spec fn is_quote(c: char) -> bool {
    c == '"' || c == '\''
}

/// Index just after the string literal whose body starts at `j` and ends at the next unescaped
/// `quote` (a backslash escapes the character after it); an unterminated literal runs to the end.
pub open spec fn string_end(s: Seq<char>, j: int, quote: char) -> int
    decreases s.len() + 1 - j,
{
    if j >= s.len() {
        s.len() as int
    } else if s[j] == '\\' {
        string_end(s, j + 2, quote)
    } else if s[j] == quote {
        j + 1
    } else {
        string_end(s, j + 1, quote)
    }
}

/// The characters of `s` from position `i` on that stand outside string literals.
pub open spec fn code_from(s: Seq<char>, i: int) -> Seq<char>
    decreases s.len() - i,
{
    if i < 0 || i >= s.len() {
        seq![]
    } else if is_quote(s[i]) {
        if i < string_end(s, i + 1, s[i]) <= s.len() {
            code_from(s, string_end(s, i + 1, s[i]))
        } else {
            seq![]
        }
    } else {
        seq![s[i]] + code_from(s, i + 1)
    }
}

/// Opening minus closing brackets in `t`.
pub open spec fn depth(t: Seq<char>) -> int
    decreases t.len(),
{
    if t.len() == 0 {
        0
    } else {
        depth(t.drop_last()) + if is_opener(t.last()) {
            1int
        } else if is_closer(t.last()) {
            -1int
        } else {
            0int
        }
    }
}

/// The input leaves a bracket open: outside string literals, no prefix closes more brackets
/// than it opens (a stray closer is a syntax error, not an open bracket), and the whole opens
/// more than it closes.
pub open spec fn leaves_bracket_open(s: Seq<char>) -> bool {
    let t = code_from(s, 0);
    (forall|k: int| 0 <= k <= t.len() ==> depth(#[trigger] t.take(k)) >= 0) && depth(t) > 0
}

proof fn lemma_string_end_bounds(s: Seq<char>, j: int, quote: char)
    requires
        0 <= j,
    ensures
        j <= string_end(s, j, quote) || string_end(s, j, quote) == s.len(),
        string_end(s, j, quote) <= s.len() || j > s.len(),
    decreases s.len() + 1 - j,
{
    if j < s.len() {
        if s[j] == '\\' {
            lemma_string_end_bounds(s, j + 2, quote);
        } else if s[j] != quote {
            lemma_string_end_bounds(s, j + 1, quote);
        }
    }
}

proof fn lemma_depth_push(t: Seq<char>, c: char)
    ensures
        depth(t.push(c)) == depth(t) + if is_opener(c) {
            1int
        } else if is_closer(c) {
            -1int
        } else {
            0int
        },
{
    assert(t.push(c).drop_last() =~= t);
}

proof fn lemma_string_end_shift(p: Seq<char>, r: Seq<char>, j: int, quote: char)
    requires
        0 <= j,
    ensures
        string_end(p + r, p.len() + j, quote) == p.len() + string_end(r, j, quote),
    decreases r.len() + 1 - j,
{
    let s = p + r;
    if j < r.len() {
        assert(s[p.len() + j] == r[j]);
        if r[j] == '\\' {
            lemma_string_end_shift(p, r, j + 2, quote);
        } else if r[j] != quote {
            lemma_string_end_shift(p, r, j + 1, quote);
        }
    }
}

proof fn lemma_code_from_shift(p: Seq<char>, r: Seq<char>, i: int)
    requires
        0 <= i,
    ensures
        code_from(p + r, p.len() + i) == code_from(r, i),
    decreases r.len() - i,
{
    let s = p + r;
    if i < r.len() {
        assert(s[p.len() + i] == r[i]);
        if is_quote(r[i]) {
            lemma_string_end_shift(p, r, i + 1, r[i]);
            lemma_string_end_bounds(r, i + 1, r[i]);
            if i < string_end(r, i + 1, r[i]) <= r.len() {
                lemma_code_from_shift(p, r, string_end(r, i + 1, r[i]));
            }
        } else {
            lemma_code_from_shift(p, r, i + 1);
        }
    }
}

/// A literal that holds neither its quote nor a backslash ends at its closing quote.
proof fn lemma_literal_end(t: Seq<char>, q: char, rest: Seq<char>, j: int)
    requires
        q != '\\',
        1 <= j <= t.len() + 1,
        forall|k: int| 0 <= k < t.len() ==> t[k] != q && t[k] != '\\',
    ensures
        string_end(seq![q] + t + seq![q] + rest, j, q) == t.len() + 2,
    decreases t.len() + 1 - j,
{
    let s = seq![q] + t + seq![q] + rest;
    assert(s.len() == t.len() + 2 + rest.len());
    if j <= t.len() {
        assert(s[j] == t[j - 1]);
        assert(t[j - 1] != q && t[j - 1] != '\\');
        lemma_literal_end(t, q, rest, j + 1);
        assert(string_end(s, j, q) == string_end(s, j + 1, q));
    } else {
        assert(s[j] == q);
        assert(string_end(s, j, q) == j + 1);
    }
}

/// A character that is not a quote stands for itself: it is code, and what follows it is read
/// as it would be on its own.
pub proof fn code_char(c: char, rest: Seq<char>)
    requires
        !is_quote(c),
    ensures
        code_from(seq![c] + rest, 0) == seq![c] + code_from(rest, 0),
{
    lemma_code_from_shift(seq![c], rest, 0);
    assert((seq![c] + rest)[0] == c);
}

/// A string literal ends at the next occurrence of the quote that opened it (when no backslash
/// intervenes): it hides everything inside it, the other kind of quote and brackets too, and
/// what follows it is read as code again.
pub proof fn literal_hides_its_text(q: char, t: Seq<char>, rest: Seq<char>)
    requires
        is_quote(q),
        forall|k: int| 0 <= k < t.len() ==> t[k] != q && t[k] != '\\',
    ensures
        code_from(seq![q] + t + seq![q] + rest, 0) == code_from(rest, 0),
{
    let s = seq![q] + t + seq![q] + rest;
    assert(s[0] == q);
    lemma_literal_end(t, q, rest, 1);
    let p = seq![q] + t + seq![q];
    assert(s == p + rest);
    lemma_code_from_shift(p, rest, 0);
    assert(p.len() == t.len() + 2);
}

/// `true` when the input leaves a bracket open, so that the REPL should read another line.
pub fn needs_more_input(input: &str) -> (r: bool)
    ensures
        r == leaves_bracket_open(input@),
{
    let chars = chars_of(input);
    let ghost s = input@;
    // Never more than the characters read so far, so a `usize` cannot overflow.
    let mut balance: usize = 0;
    let mut i: usize = 0;
    let ghost mut seen: Seq<char> = seq![];
    while i < chars.len()
        invariant
            chars@ == s,
            s == input@,
            i <= chars.len(),
            code_from(s, 0) == seen + code_from(s, i as int),
            balance == depth(seen),
            0 <= balance <= i,
            forall|k: int| 0 <= k <= seen.len() ==> depth(#[trigger] seen.take(k)) >= 0,
        decreases chars.len() - i,
    {
        let ch = chars[i];
        if ch == '{' || ch == '(' || ch == '[' {
            proof {
                lemma_depth_push(seen, ch);
                assert(code_from(s, i as int) == seq![ch] + code_from(s, i + 1));
                assert(code_from(s, 0) == seen.push(ch) + code_from(s, i + 1));
                assert forall|k: int| 0 <= k <= seen.len() + 1 implies depth(
                    #[trigger] seen.push(ch).take(k),
                ) >= 0 by {
                    if k <= seen.len() {
                        assert(seen.push(ch).take(k) =~= seen.take(k));
                    } else {
                        assert(seen.push(ch).take(k) =~= seen.push(ch));
                    }
                }
                seen = seen.push(ch);
            }
            balance = balance + 1;
            i = i + 1;
        } else if ch == '}' || ch == ')' || ch == ']' {
            proof {
                lemma_depth_push(seen, ch);
                assert(code_from(s, i as int) == seq![ch] + code_from(s, i + 1));
                assert(code_from(s, 0) == seen.push(ch) + code_from(s, i + 1));
            }
            if balance == 0 {
                proof {
                    let t = code_from(s, 0);
                    assert(t.take(seen.len() as int + 1) =~= seen.push(ch));
                    assert(depth(t.take(seen.len() as int + 1)) < 0);
                    assert(!leaves_bracket_open(s));
                }
                return false;
            }
            proof {
                assert forall|k: int| 0 <= k <= seen.len() + 1 implies depth(
                    #[trigger] seen.push(ch).take(k),
                ) >= 0 by {
                    if k <= seen.len() {
                        assert(seen.push(ch).take(k) =~= seen.take(k));
                    } else {
                        assert(seen.push(ch).take(k) =~= seen.push(ch));
                    }
                }
                seen = seen.push(ch);
            }
            balance = balance - 1;
            i = i + 1;
        } else if ch == '"' || ch == '\'' {
            let quote = ch;
            let mut j: usize = i + 1;
            let mut end: usize = chars.len();
            let mut done = false;
            while !done && j < chars.len()
                invariant
                    chars@ == s,
                    i < j,
                    !done ==> end == chars.len(),
                    j <= chars.len(),
                    end <= chars.len(),
                    done ==> string_end(s, i + 1, quote) == end as int && i < end,
                    !done ==> string_end(s, i + 1, quote) == string_end(s, j as int, quote),
                decreases chars.len() + 1 - j, if done { 0int } else { 1int },
            {
                let c = chars[j];
                if c == '\\' {
                    if j + 1 < chars.len() {
                        j = j + 2;
                    } else {
                        assert(string_end(s, j + 2, quote) == s.len());
                        assert(string_end(s, s.len() as int, quote) == s.len());
                        j = chars.len();
                    }
                } else if c == quote {
                    end = j + 1;
                    done = true;
                } else {
                    j = j + 1;
                }
            }
            proof {
                lemma_string_end_bounds(s, i + 1, quote);
                assert(string_end(s, i + 1, quote) == end as int);
                assert(code_from(s, i as int) == code_from(s, end as int));
            }
            i = end;
        } else {
            proof {
                lemma_depth_push(seen, ch);
                assert(code_from(s, i as int) == seq![ch] + code_from(s, i + 1));
                assert(code_from(s, 0) == seen.push(ch) + code_from(s, i + 1));
                assert forall|k: int| 0 <= k <= seen.len() + 1 implies depth(
                    #[trigger] seen.push(ch).take(k),
                ) >= 0 by {
                    if k <= seen.len() {
                        assert(seen.push(ch).take(k) =~= seen.take(k));
                    } else {
                        assert(seen.push(ch).take(k) =~= seen.push(ch));
                    }
                }
                seen = seen.push(ch);
            }
            i = i + 1;
        }
    }
    proof {
        assert(code_from(s, i as int) =~= seq![]);
        assert(code_from(s, 0) =~= seen);
    }
    balance > 0
}


/// Whitespace as Unicode (and Rust's `char::is_whitespace`) defines it.
pub open spec fn is_whitespace(c: char) -> bool {
    ||| c == ' ' || c == '\t' || c == '\n' || c == '\u{0B}' || c == '\u{0C}' || c == '\r'
    ||| c == '\u{85}' || c == '\u{A0}' || c == '\u{1680}'
    ||| ('\u{2000}' <= c && c <= '\u{200A}')
    ||| c == '\u{2028}' || c == '\u{2029}' || c == '\u{202F}' || c == '\u{205F}' || c == '\u{3000}'
}

/// `s` without its trailing whitespace.
pub open spec fn trim_end(s: Seq<char>) -> Seq<char>
    decreases s.len(),
{
    if s.len() > 0 && is_whitespace(s.last()) {
        trim_end(s.drop_last())
    } else {
        s
    }
}

/// Whether `c` is whitespace (see `is_whitespace`).
fn is_ws(c: char) -> (r: bool)
    ensures
        r == is_whitespace(c),
{
    c == ' ' || c == '\t' || c == '\n' || c == '\u{0B}' || c == '\u{0C}' || c == '\r' || c
        == '\u{85}' || c == '\u{A0}' || c == '\u{1680}' || ('\u{2000}' <= c && '\u{200A}' >= c)
        || c == '\u{2028}' || c == '\u{2029}' || c == '\u{202F}' || c == '\u{205F}' || c
        == '\u{3000}'
}

/// `s` without its trailing whitespace, as an owned string.
fn trim_line_end(s: &str) -> (r: String)
    ensures
        r@ == trim_end(s@),
{
    let chars = chars_of(s);
    let mut end: usize = chars.len();
    assert(s@.take(end as int) =~= s@);
    while end > 0 && is_ws(chars[end - 1])
        invariant
            end <= chars.len(),
            chars@ == s@,
            trim_end(s@.take(end as int)) == trim_end(s@),
        decreases end,
    {
        assert(s@.take(end - 1) =~= s@.take(end as int).drop_last());
        end = end - 1;
    }
    let mut r = String::new();
    let mut i: usize = 0;
    while i < end
        invariant
            i <= end <= chars.len(),
            chars@ == s@,
            r@ == s@.take(i as int),
        decreases end - i,
    {
        push_char(&mut r, chars[i]);
        assert(s@.take(i + 1) =~= s@.take(i as int).push(s@[i as int]));
        i = i + 1;
    }
    r
}

/// What the REPL does with a line: wait for more, or run the gathered command.
#[derive(Debug)]
pub enum InputStep {
    /// A bracket is still open: read another line.
    Continue,
    /// The command is complete; a non-empty one goes into the history.
    Complete { command: String, record_history: bool },
}

impl InputStep {
    /// This step runs the command `cmd`, recording it in the history when it is not empty.
    pub open spec fn completes(self, cmd: Seq<char>) -> bool {
        match self {
            InputStep::Complete { command, record_history } => command@ == cmd && record_history
                == (cmd.len() > 0),
            InputStep::Continue => false,
        }
    }
}

/// The lines of a command typed so far.
pub struct InputBuffer {
    lines: Vec<String>,
}

impl View for InputBuffer {
    type V = Seq<Seq<char>>;

    closed spec fn view(&self) -> Seq<Seq<char>> {
        views_of(self.lines@)
    }
}

/// The command that lines make: the lines joined by newlines.
pub open spec fn command_of(lines: Seq<Seq<char>>) -> Seq<char> {
    join(lines, seq!['\n'])
}

/// What adding `line` to the lines `old` does: where the lines then leave a bracket open the
/// step is `Continue` and the line is kept; else the step runs the lines joined by newlines
/// (recording a non-empty command in the history) and no line is kept.
pub open spec fn push_outcome(old: Seq<Seq<char>>, line: Seq<char>, new: Seq<Seq<char>>, step: InputStep) -> bool {
    let cmd = command_of(old.push(line));
    if leaves_bracket_open(cmd) {
        step is Continue && new == old.push(line)
    } else {
        new.len() == 0 && step.completes(cmd)
    }
}

/// A REPL session over typed lines: the commands run, in order, and the lines still waiting for
/// a bracket to close. Each command is the lines typed since the last command, joined by
/// newlines, and runs at the first line where they leave no bracket open.
pub open spec fn session(lines: Seq<Seq<char>>) -> (Seq<Seq<char>>, Seq<Seq<char>>)
    decreases lines.len(),
{
    if lines.len() == 0 {
        (seq![], seq![])
    } else {
        let before = session(lines.drop_last());
        let cmd = command_of(before.1.push(lines.last()));
        if leaves_bracket_open(cmd) {
            (before.0, before.1.push(lines.last()))
        } else {
            (before.0.push(cmd), seq![])
        }
    }
}

/// The commands that a series of steps runs, in order.
pub open spec fn commands_run(steps: Seq<InputStep>) -> Seq<Seq<char>>
    decreases steps.len(),
{
    if steps.len() == 0 {
        seq![]
    } else {
        match steps.last() {
            InputStep::Complete { command, .. } => commands_run(steps.drop_last()).push(command@),
            InputStep::Continue => commands_run(steps.drop_last()),
        }
    }
}

/// Lines fed one by one into a buffer that starts empty run exactly the commands of `session`,
/// in order, and leave the buffer holding the lines that still wait for a bracket to close.
pub proof fn session_runs_commands(
    lines: Seq<Seq<char>>,
    buffers: Seq<Seq<Seq<char>>>,
    steps: Seq<InputStep>,
)
    requires
        buffers.len() == lines.len() + 1,
        steps.len() == lines.len(),
        buffers[0].len() == 0,
        forall|i: int|
            0 <= i < lines.len() ==> push_outcome(buffers[i], lines[i], buffers[i + 1], #[trigger] steps[i]),
    ensures
        commands_run(steps) == session(lines).0,
        buffers.last() == session(lines).1,
    decreases lines.len(),
{
    if lines.len() > 0 {
        let n = lines.len() - 1;
        assert forall|i: int| 0 <= i < lines.drop_last().len() implies push_outcome(
            buffers.drop_last()[i],
            lines.drop_last()[i],
            buffers.drop_last()[i + 1],
            #[trigger] steps.drop_last()[i],
        ) by {
            assert(steps.drop_last()[i] == steps[i]);
        }
        session_runs_commands(lines.drop_last(), buffers.drop_last(), steps.drop_last());
        assert(push_outcome(buffers[n], lines[n], buffers[n + 1], steps[n]));
        assert(buffers.drop_last().last() == buffers[n]);
        assert(lines.last() == lines[n]);
        assert(steps.last() == steps[n]);
        let cmd = command_of(buffers[n].push(lines[n]));
        if !leaves_bracket_open(cmd) {
            assert(buffers[n + 1] =~= Seq::<Seq<char>>::empty());
        }
    } else {
        assert(buffers[0] =~= Seq::<Seq<char>>::empty());
    }
}

impl InputBuffer {
    /// An empty buffer.
    pub fn new() -> (r: InputBuffer)
        ensures
            r@ == Seq::<Seq<char>>::empty(),
    {
        let r = InputBuffer { lines: Vec::new() };
        assert(r@ =~= Seq::<Seq<char>>::empty());
        r
    }

    /// The prompt for the next line: `>>> ` for a new command, `... ` inside one.
    pub fn prompt(&self) -> (r: &'static str)
        ensures
            self@.len() == 0 ==> r@ == ">>> "@,
            self@.len() > 0 ==> r@ == "... "@,
    {
        if self.lines.len() == 0 {
            ">>> "
        } else {
            "... "
        }
    }

    /// Adds a typed line. When the lines so far leave no bracket open the command is complete:
    /// it is returned and the buffer empties.
    pub fn push_line(&mut self, line: String) -> (r: InputStep)
        ensures
            push_outcome(old(self)@, line@, final(self)@, r),
    {
        let ghost v = line@;
        self.lines.push(line);
        assert(self@ =~= old(self)@.push(v));
        let command = join_strings(&self.lines, "\n");
        proof {
            reveal_strlit("\n");
            assert("\n"@ =~= seq!['\n']);
        }
        if needs_more_input(command.as_str()) {
            InputStep::Continue
        } else {
            self.lines = Vec::new();
            assert(self@ =~= Seq::<Seq<char>>::empty());
            let record_history = !command.as_str().is_empty();
            InputStep::Complete { command, record_history }
        }
    }

    /// Adds a line read from a terminal, without its trailing whitespace.
    pub fn push_raw_line(&mut self, raw: &str) -> (r: InputStep)
        ensures
            push_outcome(old(self)@, trim_end(raw@), final(self)@, r),
    {
        let line = trim_line_end(raw);
        self.push_line(line)
    }
}

} // verus!
