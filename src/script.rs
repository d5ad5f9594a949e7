use vstd::prelude::*;

use crate::error::{make_error, SMError};
use crate::expand::{
    apply_builtin_macros, collapse_blank_lines, expand_builtin, has_blank_run, is_identifier,
    is_identifier_chars, is_name_char, lemma_normalized_has_no_run, upper_ascii, upper_ascii_chars,
    MacroContext,
};
use crate::text::{
    chars_of, concat, find_char_from, next_index, replace_all, replace_chars, slice_chars,
    string_of, views_of,
};

verus! {

// A language script runs in an embedded Lua interpreter. What the interpreter
// returns depends on the script, so the items below that reach it promise
// nothing of their results; rlua reaches an interpreter only through the
// closure handed to `Lua::context`, which each of them passes one operation.

#[verifier::external_type_specification]
#[verifier::external_body]
pub struct ExLua(rlua::Lua);

/// Relies on `rlua::Lua::new`: a fresh interpreter with the standard libraries
/// but `debug`.
pub assume_specification[ rlua::Lua::new ]() -> rlua::Lua;

/// Relies on `Context::globals` and `Table::set`: binds a global name to a string.
#[verifier::external_body]
fn lua_set_string(lua: &rlua::Lua, name: &str, value: &str) -> (r: Result<(), String>) {
    lua.context(|ctx| ctx.globals().set(name, value)).map_err(|e| e.to_string())
}

/// Relies on `Context::create_sequence_from` and `Table::set`: binds a global name
/// to a table that holds the strings at indices 1, 2, ...
#[verifier::external_body]
fn lua_set_sequence(lua: &rlua::Lua, name: &str, items: &Vec<String>) -> (r: Result<(), String>) {
    lua.context(
        |ctx| {
            let table = ctx.create_sequence_from(items.iter().cloned())?;
            ctx.globals().set(name, table)
        },
    ).map_err(|e| e.to_string())
}

/// Relies on `Context::load` and `Chunk::exec`: runs a chunk of source.
#[verifier::external_body]
fn lua_exec(lua: &rlua::Lua, source: &str) -> (r: Result<(), String>) {
    lua.context(|ctx| ctx.load(source).exec()).map_err(|e| e.to_string())
}

/// Relies on `Context::load` and `Chunk::eval`: evaluates an expression to a
/// boolean.
#[verifier::external_body]
fn lua_eval_bool(lua: &rlua::Lua, source: &str) -> (r: Result<bool, String>) {
    lua.context(|ctx| ctx.load(source).eval::<bool>()).map_err(|e| e.to_string())
}

/// Relies on `Table::get` on the globals and `Function::call`: calls a global
/// function with one string and reads back a string.
#[verifier::external_body]
fn lua_call_text(lua: &rlua::Lua, function: &str, arg: &str) -> (r: Result<String, String>) {
    lua.context(
        |ctx| ctx.globals().get::<_, rlua::Function>(function)?.call::<_, String>(arg),
    ).map_err(|e| e.to_string())
}

/// The most replacements that one scripted expansion may make before it is taken
/// not to settle.
pub const MAX_SCRIPT_REPLACEMENTS: usize = 100000;

/// A reply declines a token when it equals the token but for case.
pub open spec fn declines(token: Seq<char>, reply: Seq<char>) -> bool {
    upper_ascii(reply) == upper_ascii(token)
}

/// A token as it is sent to a script: `$`, an upper-case identifier, `$`.
pub open spec fn is_sent_token(t: Seq<char>) -> bool {
    &&& t.len() >= 3
    &&& t[0] == '$'
    &&& t.last() == '$'
    &&& is_identifier(t.subrange(1, t.len() - 1))
    &&& upper_ascii(t) == t
}

proof fn lemma_sent_token(text: Seq<char>)
    requires
        text.len() >= 3,
        text[0] == '$',
        text.last() == '$',
        is_identifier(text.subrange(1, text.len() - 1)),
    ensures
        is_sent_token(upper_ascii(text)),
{
    let u = upper_ascii(text);
    let inner = text.subrange(1, text.len() - 1);
    assert(u.subrange(1, u.len() - 1) =~= upper_ascii(inner));
    assert forall|i: int| 1 <= i < inner.len() implies #[trigger] is_name_char(upper_ascii(inner)[i]) by {
        assert(is_name_char(inner[i]));
    }
    assert(upper_ascii(u) =~= u);
}

/// Every call in `log` (token as sent, reply) was declined.
pub open spec fn all_declined(log: Seq<(Seq<char>, Seq<char>)>) -> bool {
    forall|k: int| 0 <= k < log.len() ==> upper_ascii(#[trigger] log[k].1) == log[k].0
}

/// After a macro was removed, drops one of two spaces that met at `b`, or a space
/// left at the very start.
pub open spec fn drop_double_space(d: Seq<char>, b: int) -> Seq<char> {
    if b == 0 {
        if d.len() > 0 && d[0] == ' ' {
            d.remove(0)
        } else {
            d
        }
    } else if 0 < b < d.len() && d[b - 1] == ' ' && d[b] == ' ' {
        d.remove(b)
    } else {
        d
    }
}

/// The document after the script replied `reply` to the token `doc[b..=e]`.
pub open spec fn reply_doc(doc: Seq<char>, b: int, e: int, reply: Seq<char>) -> Seq<char> {
    let text = doc.subrange(b, e + 1);
    if declines(text, reply) {
        doc
    } else if reply.len() == 0 {
        drop_double_space(replace_all(doc, text, reply), b)
    } else {
        replace_all(doc, text, reply)
    }
}

/// Where the scan goes on after that reply: just past the inserted text.
pub open spec fn reply_pos(doc: Seq<char>, b: int, e: int, reply: Seq<char>) -> int {
    let d = reply_doc(doc, b, e, reply);
    if b + reply.len() <= d.len() {
        b + reply.len()
    } else {
        d.len() as int
    }
}

/// The message when a script keeps replacing without end.
pub open spec fn unsettled_message() -> Seq<char> {
    "Language script did not settle: too many macro replacements."@
}

/// `doc[b..=e]` is a macro token: two consecutive `$` around an identifier.
pub open spec fn token_at(doc: Seq<char>, b: int, e: int) -> bool {
    &&& 0 <= b < e < doc.len()
    &&& doc[b] == '$'
    &&& doc[e] == '$'
    &&& forall|j: int| b < j < e ==> doc[j] != '$'
    &&& is_identifier(doc.subrange(b + 1, e))
}

/// Whether a text holds a macro token.
pub open spec fn holds_macro_token(doc: Seq<char>) -> bool {
    exists|b: int, e: int| token_at(doc, b, e)
}

/// How a replay of a script's calls ends.
pub enum ScanOutcome {
    /// A pass replaced nothing, with every call used: the document.
    Done(Seq<char>),
    /// The scan needs the reply to this token, which is not among the calls.
    Pending(Seq<char>),
    /// A reply would replace, with no replacement left in the budget.
    Unsettled,
    /// The calls do not match the scan.
    Overrun,
}

/// Replays the scan from `pos` with the replies in `rest`: the next `$` at or
/// after `pos` and the `$` after it bound a candidate; one that is not an
/// identifier is passed over (the scan resumes at its closing `$`); a token is
/// answered by the next reply (its upper-cased text must be what was sent), and
/// the reply is applied. A pass that ends having replaced something starts
/// another from the beginning.
pub open spec fn scan(
    doc: Seq<char>,
    pos: int,
    replaced: bool,
    budget: nat,
    rest: Seq<(Seq<char>, Seq<char>)>,
) -> ScanOutcome
    decreases rest.len(), (if replaced { 1int } else { 0int }), doc.len() - pos,
{
    let b = next_index(doc, '$', pos);
    let e = next_index(doc, '$', b + 1);
    if pos < 0 || pos > doc.len() {
        ScanOutcome::Overrun
    } else if b < 0 || e < 0 {
        if replaced {
            scan(doc, 0, false, budget, rest)
        } else if rest.len() == 0 {
            ScanOutcome::Done(doc)
        } else {
            ScanOutcome::Overrun
        }
    } else if !is_identifier(doc.subrange(b + 1, e)) {
        if pos < e < doc.len() {
            scan(doc, e, replaced, budget, rest)
        } else {
            ScanOutcome::Overrun
        }
    } else {
        let text = doc.subrange(b, e + 1);
        if rest.len() == 0 {
            ScanOutcome::Pending(upper_ascii(text))
        } else if rest[0].0 != upper_ascii(text) {
            ScanOutcome::Overrun
        } else {
            let reply = rest[0].1;
            let rep = !declines(text, reply);
            if rep && budget == 0 {
                ScanOutcome::Unsettled
            } else {
                scan(
                    reply_doc(doc, b, e, reply),
                    reply_pos(doc, b, e, reply),
                    replaced || rep,
                    if rep { (budget - 1) as nat } else { budget },
                    rest.drop_first(),
                )
            }
        }
    }
}

/// The scripted passes over `doc`, replayed with the calls `log` (token sent,
/// reply) in order.
pub open spec fn scripted_passes(doc: Seq<char>, log: Seq<(Seq<char>, Seq<char>)>) -> ScanOutcome {
    scan(doc, 0, false, MAX_SCRIPT_REPLACEMENTS as nat, log)
}

/// The outcome of one reply of the script.
pub struct ReplyOutcome {
    pub doc: Vec<char>,
    pub pos: usize,
    pub replaced: bool,
}

/// Applies the script's reply to the token `doc[begin..=end]`: unless the reply
/// declines it, every occurrence of the token's text is replaced by the reply.
pub fn apply_reply(doc: &Vec<char>, begin: usize, end: usize, reply: &Vec<char>) -> (r: ReplyOutcome)
    requires
        begin < end < doc.len(),
    ensures
        r.doc@ == reply_doc(doc@, begin as int, end as int, reply@),
        r.pos == reply_pos(doc@, begin as int, end as int, reply@),
        r.replaced == !declines(doc@.subrange(begin as int, end + 1), reply@),
{
    let text = slice_chars(doc, begin, end + 1);
    let ut = upper_ascii_chars(&text);
    let ur = upper_ascii_chars(reply);
    let declined = crate::text::same_chars(&ur, &ut);
    let mut d: Vec<char>;
    if declined {
        d = doc.clone();
        assert(d@ =~= doc@);
    } else {
        d = replace_chars(doc, &text, reply);
        if reply.len() == 0 {
            if begin == 0 {
                if d.len() > 0 && d[0] == ' ' {
                    d.remove(0);
                }
            } else if begin < d.len() && d[begin - 1] == ' ' && d[begin] == ' ' {
                d.remove(begin);
            }
        }
    }
    let pos = if begin <= d.len() && reply.len() <= d.len() - begin {
        begin + reply.len()
    } else {
        d.len()
    };
    ReplyOutcome { doc: d, pos, replaced: !declined }
}

/// One step of starting a script, in the interpreter.
pub enum ScriptStep {
    /// `SMArguments` bound to the free arguments, at indices 1, 2, ...
    BindArguments(Seq<Seq<char>>),
    /// `SMFileName` bound to the template's file stem.
    BindFileName(Seq<char>),
    /// `SMSafeName` bound to the identifier form of the target name.
    BindSafeName(Seq<char>),
    /// The script's source run.
    RunSource(Seq<char>),
    /// Whether `ReplaceMacro` is defined, asked.
    CheckReplaceMacro,
    /// Whether `ProcessArguments` is defined, asked.
    CheckProcessArguments,
    /// `ProcessArguments()` called.
    RunProcessArguments,
}

/// The steps that start a script, up to asking whether it defines
/// `ProcessArguments`.
pub open spec fn setup_steps(
    source: Seq<char>,
    file_name: Seq<char>,
    safe_name: Seq<char>,
    args: Seq<Seq<char>>,
) -> Seq<ScriptStep> {
    seq![
        ScriptStep::BindArguments(args),
        ScriptStep::BindFileName(file_name),
        ScriptStep::BindSafeName(safe_name),
        ScriptStep::RunSource(source),
        ScriptStep::CheckReplaceMacro,
        ScriptStep::CheckProcessArguments,
    ]
}

/// A running language script: the interpreter, the steps that started it, and a
/// record of the calls made to its `ReplaceMacro`.
pub struct MacroScript {
    lua: rlua::Lua,
    steps: Ghost<Seq<ScriptStep>>,
    /// Each call of `ReplaceMacro`: the token sent and the reply.
    log: Ghost<Seq<(Seq<char>, Seq<char>)>>,
    /// Each call of `ReplaceMacro` that failed: the token sent.
    failed: Ghost<Seq<Seq<char>>>,
}

fn script_error(what: &str, detail: &str) -> (r: SMError)
    ensures
        r.message@ == what@ + detail@,
{
    let m = concat(what, detail);
    make_error(m.as_str())
}

/// What the answer to "is `ReplaceMacro` defined?" means for loading a script:
/// yes goes on, no is the error "Language script missing ReplaceMacro
/// function.", and an interpreter error is reported with its text.
pub fn replace_macro_check(found: Result<bool, String>) -> (r: Result<(), SMError>)
    ensures
        found == Ok::<bool, String>(true) ==> r is Ok,
        found == Ok::<bool, String>(false) ==> r is Err && r->Err_0.message@
            == "Language script missing ReplaceMacro function."@,
        found is Err ==> r is Err && r->Err_0.message@
            == "Failed ReplaceMacro check in language script: "@ + found->Err_0@,
{
    match found {
        Ok(true) => Ok(()),
        Ok(false) => Err(make_error("Language script missing ReplaceMacro function.")),
        Err(e) => Err(script_error("Failed ReplaceMacro check in language script: ", e.as_str())),
    }
}

impl MacroScript {
    /// The calls made so far to `ReplaceMacro`: each token sent, with its reply.
    pub closed spec fn calls(&self) -> Seq<(Seq<char>, Seq<char>)> {
        self.log@
    }

    /// The tokens of the calls to `ReplaceMacro` that failed, in order.
    pub closed spec fn failures(&self) -> Seq<Seq<char>> {
        self.failed@
    }

    /// The steps that started this script, in order.
    pub closed spec fn setup(&self) -> Seq<ScriptStep> {
        self.steps@
    }

    /// Starts a script: binds `SMArguments`, `SMFileName` and `SMSafeName`, runs
    /// the source, checks that it defines `ReplaceMacro`, and calls
    /// `ProcessArguments` once when it defines one; no `ReplaceMacro` call is made.
    pub fn load(source: &str, file_name: &str, safe_name: &str, args: &Vec<String>) -> (r: Result<
        MacroScript,
        SMError,
    >)
        ensures
            r is Ok ==> r->Ok_0.calls() == Seq::<(Seq<char>, Seq<char>)>::empty(),
            r is Ok ==> r->Ok_0.failures() == Seq::<Seq<char>>::empty(),
            r is Ok ==> {
                let base = setup_steps(source@, file_name@, safe_name@, views_of(args@));
                r->Ok_0.setup() == base || r->Ok_0.setup() == base.push(
                    ScriptStep::RunProcessArguments,
                )
            },
    {
        let lua = rlua::Lua::new();
        if let Err(e) = lua_set_sequence(&lua, "SMArguments", args) {
            return Err(script_error("Failed setting lua language script arguments: ", e.as_str()));
        }
        if let Err(e) = lua_set_string(&lua, "SMFileName", file_name) {
            return Err(script_error("Failed initialising lua variable SMFileName: ", e.as_str()));
        }
        if let Err(e) = lua_set_string(&lua, "SMSafeName", safe_name) {
            return Err(script_error("Failed initialising lua variable SMSafeName: ", e.as_str()));
        }
        if let Err(e) = lua_exec(&lua, source) {
            return Err(script_error("Failed parsing language script: ", e.as_str()));
        }
        if let Err(e) = replace_macro_check(lua_eval_bool(&lua, "ReplaceMacro ~= nil")) {
            return Err(e);
        }
        let ghost base = setup_steps(source@, file_name@, safe_name@, views_of(args@));
        let mut steps: Ghost<Seq<ScriptStep>> = Ghost(base);
        match lua_eval_bool(&lua, "ProcessArguments ~= nil") {
            Ok(true) => {
                if let Err(e) = lua_exec(&lua, "ProcessArguments()") {
                    return Err(
                        script_error("Failed running ProcessArguments() in language script: ", e.as_str()),
                    );
                }
                steps = Ghost(base.push(ScriptStep::RunProcessArguments));
            },
            Ok(false) => {},
            Err(e) => {
                return Err(
                    script_error("Failed ProcessArguments check in language script: ", e.as_str()),
                );
            },
        }
        Ok(MacroScript { lua, steps, log: Ghost(Seq::empty()), failed: Ghost(Seq::empty()) })
    }

    /// Asks the script's `ReplaceMacro` what to put in place of `token`.
    pub fn replace_macro(&mut self, token: &Vec<char>) -> (r: Result<Vec<char>, SMError>)
        ensures
            r is Ok ==> final(self).calls() == old(self).calls().push((token@, r->Ok_0@)),
            r is Err ==> final(self).calls() == old(self).calls(),
            r is Ok ==> final(self).failures() == old(self).failures(),
            r is Err ==> final(self).failures() == old(self).failures().push(token@),
    {
        let t = string_of(token);
        match lua_call_text(&self.lua, "ReplaceMacro", t.as_str()) {
            Ok(reply) => {
                let v = chars_of(reply.as_str());
                self.log = Ghost(self.log@.push((token@, v@)));
                Ok(v)
            },
            Err(e) => {
                self.failed = Ghost(self.failed@.push(token@));
                Err(script_error("Failed running ReplaceMacro in language script: ", e.as_str()))
            },
        }
    }
}

impl MacroScript {
    /// Runs the script over `doc` until a whole pass replaces nothing: each token
    /// `$NAME$` met in a left-to-right scan is sent, upper-cased, to
    /// `ReplaceMacro`, and a reply that does not decline it replaces every
    /// occurrence of its text. The result is the replay of the calls made
    /// (`scripted_passes`); it fails when the script fails, or when the document
    /// does not settle within `MAX_SCRIPT_REPLACEMENTS` replacements.
    pub fn run_passes(&mut self, doc: &Vec<char>) -> (r: Result<Vec<char>, SMError>)
        ensures
            old(self).calls().len() <= final(self).calls().len(),
            final(self).calls().subrange(0, old(self).calls().len() as int) == old(self).calls(),
            r is Ok ==> scripted_passes(
                doc@,
                final(self).calls().subrange(
                    old(self).calls().len() as int,
                    final(self).calls().len() as int,
                ),
            ) == ScanOutcome::Done(r->Ok_0@),
            r is Ok ==> final(self).failures() == old(self).failures(),
            r is Err ==> (scripted_passes(
                doc@,
                final(self).calls().subrange(
                    old(self).calls().len() as int,
                    final(self).calls().len() as int,
                ),
            ) matches ScanOutcome::Pending(t) && final(self).failures() == old(self).failures().push(
                t,
            )) || (scripted_passes(
                doc@,
                final(self).calls().subrange(
                    old(self).calls().len() as int,
                    final(self).calls().len() as int,
                ),
            ) is Unsettled && final(self).failures() == old(self).failures()),
            scripted_passes(
                doc@,
                final(self).calls().subrange(
                    old(self).calls().len() as int,
                    final(self).calls().len() as int,
                ),
            ) is Unsettled ==> r is Err && r->Err_0.message@ == unsettled_message(),
            !holds_macro_token(doc@) ==> r is Ok && r->Ok_0@ == doc@ && final(self).calls()
                == old(self).calls(),
            forall|k: int|
                old(self).calls().len() <= k < final(self).calls().len() ==> is_sent_token(
                    #[trigger] final(self).calls()[k].0,
                ),
            r is Ok && all_declined(
                final(self).calls().subrange(
                    old(self).calls().len() as int,
                    final(self).calls().len() as int,
                ),
            ) ==> r->Ok_0@ == doc@,
    {
        let ghost start = self.calls().len();
        let mut cur: Vec<char> = doc.clone();
        assert(cur@ =~= doc@);
        let mut budget: usize = MAX_SCRIPT_REPLACEMENTS;
        let mut pos: usize = 0;
        let mut replaced = false;
        assert forall|rest: Seq<(Seq<char>, Seq<char>)>|
            scripted_passes(doc@, self.calls().subrange(start as int, self.calls().len() as int) + rest)
                == #[trigger] scan(cur@, pos as int, replaced, budget as nat, rest) by {
            assert(self.calls().subrange(start as int, self.calls().len() as int) + rest =~= rest);
        }
        loop
            invariant
                pos <= cur.len(),
                self.failures() == old(self).failures(),
                start <= self.calls().len(),
                self.calls().subrange(0, start as int) == old(self).calls(),
                forall|k: int| start <= k < self.calls().len() ==> is_sent_token(#[trigger] self.calls()[k].0),
                !holds_macro_token(doc@) ==> cur@ == doc@ && self.calls() == old(self).calls()
                    && !replaced,
                all_declined(self.calls().subrange(start as int, self.calls().len() as int))
                    ==> cur@ == doc@ && !replaced,
                forall|rest: Seq<(Seq<char>, Seq<char>)>|
                    scripted_passes(doc@, self.calls().subrange(start as int, self.calls().len() as int) + rest)
                        == #[trigger] scan(cur@, pos as int, replaced, budget as nat, rest),
            ensures
                self.failures() == old(self).failures(),
                start <= self.calls().len(),
                self.calls().subrange(0, start as int) == old(self).calls(),
                forall|k: int| start <= k < self.calls().len() ==> is_sent_token(#[trigger] self.calls()[k].0),
                !holds_macro_token(doc@) ==> cur@ == doc@ && self.calls() == old(self).calls(),
                all_declined(self.calls().subrange(start as int, self.calls().len() as int))
                    ==> cur@ == doc@,
                scripted_passes(doc@, self.calls().subrange(start as int, self.calls().len() as int))
                    == ScanOutcome::Done(cur@),
            decreases budget, (if replaced { 1int } else { 0int }), cur.len() - pos,
        {
            let ghost cur0 = cur@;
            let ghost pos0 = pos as int;
            let ghost rep0 = replaced;
            let ghost bud0 = budget as nat;
            let ghost calls0 = self.calls().subrange(start as int, self.calls().len() as int);
            let found = match find_char_from(&cur, '$', pos) {
                Some(b) => match find_char_from(&cur, '$', b + 1) {
                    Some(e) => Some((b, e)),
                    None => None,
                },
                None => None,
            };
            let (begin, end) = match found {
                Some(be) => be,
                None => {
                    if !replaced {
                        proof {
                            assert(scan(cur0, pos0, rep0, bud0, Seq::empty()) == ScanOutcome::Done(cur0));
                            assert(calls0 + Seq::<(Seq<char>, Seq<char>)>::empty() =~= calls0);
                        }
                        break;
                    }
                    proof {
                        assert forall|rest: Seq<(Seq<char>, Seq<char>)>|
                            scripted_passes(doc@, calls0 + rest) == #[trigger] scan(cur0, 0, false, bud0, rest) by {
                            assert(scan(cur0, pos0, rep0, bud0, rest) == scan(cur0, 0, false, bud0, rest));
                        }
                    }
                    pos = 0;
                    replaced = false;
                    continue;
                },
            };
            let interior = slice_chars(&cur, begin + 1, end);
            if !is_identifier_chars(&interior) {
                proof {
                    assert forall|rest: Seq<(Seq<char>, Seq<char>)>|
                        scripted_passes(doc@, calls0 + rest) == #[trigger] scan(cur0, end as int, rep0, bud0, rest) by {
                        assert(scan(cur0, pos0, rep0, bud0, rest) == scan(cur0, end as int, rep0, bud0, rest));
                    }
                }
                pos = end;
                continue;
            }
            let text = slice_chars(&cur, begin, end + 1);
            let token = upper_ascii_chars(&text);
            proof {
                assert(text@.subrange(1, text@.len() - 1) =~= interior@);
                lemma_sent_token(text@);
                if !holds_macro_token(doc@) && cur@ == doc@ {
                    assert(token_at(doc@, begin as int, end as int));
                    assert(holds_macro_token(doc@));
                }
            }
            let ghost calls_before = self.calls();
            let reply = match self.replace_macro(&token) {
                Ok(rp) => rp,
                Err(e) => {
                    proof {
                        assert(scan(cur0, pos0, rep0, bud0, Seq::empty()) is Pending);
                        assert(calls0 + Seq::<(Seq<char>, Seq<char>)>::empty() =~= calls0);
                    }
                    return Err(e);
                },
            };
            let ghost entry = (token@, reply@);
            let ghost calls1 = self.calls().subrange(start as int, self.calls().len() as int);
            proof {
                assert(calls1 =~= calls0.push(entry));
                assert(self.calls()[calls_before.len() as int].0 == token@);
                assert forall|k: int| start <= k < calls_before.len() implies self.calls()[k] == calls_before[k] by {}
                assert(self.calls().subrange(0, start as int) =~= calls_before.subrange(0, start as int));
                if all_declined(calls1) {
                    assert forall|k: int| 0 <= k < calls0.len() implies upper_ascii(
                        #[trigger] calls0[k].1,
                    ) == calls0[k].0 by {
                        assert(calls0[k] == calls1[k]);
                    }
                    assert(upper_ascii(calls1[calls0.len() as int].1) == calls1[calls0.len() as int].0);
                }
            }
            let out = apply_reply(&cur, begin, end, &reply);
            proof {
                if !out.replaced {
                    assert(upper_ascii(reply@).len() == reply@.len());
                    assert(upper_ascii(text@).len() == text@.len());
                    assert(reply@.len() == end + 1 - begin);
                    assert(out.doc@ == cur@);
                    assert(out.pos == end + 1);
                }
            }
            if out.replaced && budget == 0 {
                proof {
                    let one = seq![entry];
                    assert(calls1 + Seq::<(Seq<char>, Seq<char>)>::empty() =~= calls0 + one);
                    assert(one[0] == entry);
                    assert(scan(cur0, pos0, rep0, bud0, one) == ScanOutcome::Unsettled);
                }
                return Err(make_error("Language script did not settle: too many macro replacements."));
            }
            let ghost bud1: nat = if out.replaced { (bud0 - 1) as nat } else { bud0 };
            let ghost rep1: bool = rep0 || out.replaced;
            proof {
                assert forall|rest: Seq<(Seq<char>, Seq<char>)>|
                    scripted_passes(doc@, calls1 + rest) == #[trigger] scan(
                        out.doc@,
                        out.pos as int,
                        rep1,
                        bud1,
                        rest,
                    ) by {
                    let more = seq![entry] + rest;
                    assert(calls1 + rest =~= calls0 + more);
                    assert(more[0] == entry);
                    assert(more.drop_first() =~= rest);
                    assert(scan(cur0, pos0, rep0, bud0, more) == scan(
                        out.doc@,
                        out.pos as int,
                        rep1,
                        bud1,
                        rest,
                    ));
                }
            }
            if out.replaced {
                budget = budget - 1;
                replaced = true;
            }
            cur = out.doc;
            pos = out.pos;
        }
        proof {
            assert(!(scripted_passes(doc@, self.calls().subrange(start as int, self.calls().len() as int)) is Unsettled));
        }
        Ok(cur)
    }

    /// Expands a template: the script's passes, then the built-in macros, then
    /// blank-line normalisation.
    pub fn expand(&mut self, template: &str, c: &MacroContext) -> (r: Result<String, SMError>)
        requires
            c.wf(),
        ensures
            !holds_macro_token(template@) ==> r is Ok && r->Ok_0@ == expand_builtin(template@, c@)
                && final(self).calls() == old(self).calls(),
            old(self).calls().len() <= final(self).calls().len(),
            final(self).calls().subrange(0, old(self).calls().len() as int) == old(self).calls(),
            r is Ok ==> (scripted_passes(
                template@,
                final(self).calls().subrange(
                    old(self).calls().len() as int,
                    final(self).calls().len() as int,
                ),
            ) matches ScanOutcome::Done(d) && r->Ok_0@ == expand_builtin(d, c@)),
            r is Ok ==> final(self).failures() == old(self).failures(),
            r is Err ==> (scripted_passes(
                template@,
                final(self).calls().subrange(
                    old(self).calls().len() as int,
                    final(self).calls().len() as int,
                ),
            ) matches ScanOutcome::Pending(t) && final(self).failures() == old(self).failures().push(
                t,
            )) || (scripted_passes(
                template@,
                final(self).calls().subrange(
                    old(self).calls().len() as int,
                    final(self).calls().len() as int,
                ),
            ) is Unsettled && final(self).failures() == old(self).failures()),
            scripted_passes(
                template@,
                final(self).calls().subrange(
                    old(self).calls().len() as int,
                    final(self).calls().len() as int,
                ),
            ) is Unsettled ==> r is Err && r->Err_0.message@ == unsettled_message(),
            forall|k: int|
                old(self).calls().len() <= k < final(self).calls().len() ==> is_sent_token(
                    #[trigger] final(self).calls()[k].0,
                ),
            r is Ok && all_declined(
                final(self).calls().subrange(
                    old(self).calls().len() as int,
                    final(self).calls().len() as int,
                ),
            ) ==> r->Ok_0@ == expand_builtin(template@, c@),
            r is Ok ==> !has_blank_run(r->Ok_0@),
    {
        let doc = chars_of(template);
        let scripted = match self.run_passes(&doc) {
            Ok(d) => d,
            Err(e) => {
                return Err(e);
            },
        };
        let t = apply_builtin_macros(&scripted, c);
        let n = collapse_blank_lines(&t);
        proof {
            lemma_normalized_has_no_run(t@);
            assert(n@ == expand_builtin(scripted@, c@));
        }
        Ok(string_of(&n))
    }
}

} // verus!
