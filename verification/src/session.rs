//! The decisions of a command-line session: where a script comes from,
//! whether there is anything to do, which functions are called with which
//! arguments, whether a result is awaited, and how errors are reported.
use vstd::prelude::*;
use crate::text::{chars_of, push_chars};

verus! {

/// Where the text of a script comes from.
#[derive(Debug, PartialEq, Eq)]
pub enum ScriptSource {
    /// `-`: standard input.
    Stdin,
    /// `@path`: the file at `path`.
    File(String),
    /// Anything else: the argument is the script.
    Inline(String),
}

/// `script_source(arg)` reads `-` as standard input, `@path` as a file, and anything else as the
/// script itself.
pub fn script_source(script: &str) -> (r: ScriptSource)
    ensures
        script@ == "-"@ ==> r == ScriptSource::Stdin,
        script@ != "-"@ && script@.len() > 0 && script@[0] == '@' ==> (r matches ScriptSource::File(p)
            && p@ == script@.skip(1)),
        script@ != "-"@ && !(script@.len() > 0 && script@[0] == '@') ==> (r matches ScriptSource::Inline(t)
            && t@ == script@),
{
    let chars = chars_of(script);
    proof {
        reveal_strlit("-");
    }
    if chars.len() == 1 && chars[0] == '-' {
        assert(script@ =~= "-"@);
        return ScriptSource::Stdin;
    }
    assert(script@ != "-"@);
    if chars.len() > 0 && chars[0] == '@' {
        let mut rest: Vec<char> = Vec::new();
        let mut i: usize = 1;
        while i < chars.len()
            invariant
                1 <= i <= chars.len(),
                chars@ == script@,
                rest@ == script@.subrange(1, i as int),
            decreases chars.len() - i,
        {
            rest.push(chars[i]);
            assert(script@.subrange(1, i + 1) =~= script@.subrange(1, i as int).push(script@[i as int]));
            i = i + 1;
        }
        let mut path = String::new();
        push_chars(&mut path, &rest);
        assert(path@ =~= script@.skip(1));
        ScriptSource::File(path)
    } else {
        ScriptSource::Inline(String::from_str(script))
    }
}

/// A session has work when it has a script, a module, a call, or the REPL to run; else it shows
/// its help.
pub fn has_work(scripts: usize, modules: usize, calls: usize, repl: bool) -> (r: bool)
    ensures
        r == (scripts > 0 || modules > 0 || calls > 0 || repl),
{
    scripts > 0 || modules > 0 || calls > 0 || repl
}

/// The argument of the `i`-th call: the `i`-th `--arg`, or empty when there are fewer.
pub open spec fn call_argument(args: Seq<String>, i: int) -> Seq<char> {
    if i < args.len() {
        args[i]@
    } else {
        seq![]
    }
}

/// Pairs each `--call` with its `--arg` (an empty one where the arguments run out).
pub fn call_plan(calls: &Vec<String>, args: &Vec<String>) -> (r: Vec<(String, String)>)
    ensures
        r@.len() == calls@.len(),
        forall|i: int|
            0 <= i < r@.len() ==> #[trigger] r@[i].0@ == calls@[i]@ && r@[i].1@ == call_argument(
                args@,
                i,
            ),
{
    let mut r: Vec<(String, String)> = Vec::new();
    let mut i: usize = 0;
    while i < calls.len()
        invariant
            i <= calls.len(),
            r@.len() == i,
            forall|j: int|
                0 <= j < i ==> #[trigger] r@[j].0@ == calls@[j]@ && r@[j].1@ == call_argument(
                    args@,
                    j,
                ),
        decreases calls.len() - i,
    {
        let arg = if i < args.len() {
            args[i].clone()
        } else {
            String::new()
        };
        r.push((calls[i].clone(), arg));
        i = i + 1;
    }
    r
}

/// A result is awaited when the script set `__resolve_promise` to `true` and the result is a
/// promise.
pub fn should_await(resolve_flag: Option<bool>, is_promise: bool) -> (r: bool)
    ensures
        r == (resolve_flag == Some(true) && is_promise),
{
    match resolve_flag {
        Some(true) => is_promise,
        _ => false,
    }
}

/// The report of a JavaScript exception: `prefix`, the message, a newline and the stack, each
/// missing part written as `-`.
pub open spec fn exception_text(prefix: Seq<char>, message: Option<String>, stack: Option<String>) -> Seq<char> {
    prefix + match message {
        Some(m) => m@,
        None => "-"@,
    } + "\n"@ + match stack {
        Some(s) => s@,
        None => "-"@,
    }
}

/// Reports an exception (see `exception_text`).
pub fn exception_report(prefix: &str, message: Option<String>, stack: Option<String>) -> (r: String)
    ensures
        r@ == exception_text(prefix@, message, stack),
{
    let mut r = String::from_str(prefix);
    match &message {
        Some(m) => r.append(m.as_str()),
        None => r.append("-"),
    }
    r.append("\n");
    match &stack {
        Some(s) => r.append(s.as_str()),
        None => r.append("-"),
    }
    r
}

/// The JSON text of a value: `undefined` gives `null`; else the text JSON.stringify gave, and
/// an error where it gave none.
pub fn json_text(is_undefined: bool, stringified: Option<String>) -> (r: Option<String>)
    ensures
        is_undefined ==> (r matches Some(t) && t@ == "null"@),
        !is_undefined ==> r == stringified,
{
    if is_undefined {
        Some(String::from_str("null"))
    } else {
        stringified
    }
}

} // verus!
