use vstd::prelude::*;

use crate::error::{make_error, SMError};
use crate::text::{chars_of, push_all, split_on, split_trimmed, string_of, trimmed, views_of};

verus! {

/// A value of a language descriptor's key, as the descriptor file gives it.
#[derive(Clone, Debug)]
pub enum ConfigValue {
    Text(String),
    TextList(Vec<String>),
    /// Any other kind of value.
    Other,
}

/// A documented argument of a language: its aliases and what it does.
#[derive(Clone, Debug)]
pub struct LanguageArg {
    pub aliases: Vec<String>,
    pub info: String,
}

/// The pieces joined with `sep` between each two.
pub open spec fn joined(parts: Seq<Seq<char>>, sep: Seq<char>) -> Seq<char>
    decreases parts.len(),
{
    if parts.len() == 0 {
        Seq::empty()
    } else if parts.len() == 1 {
        parts[0]
    } else {
        joined(parts.drop_last(), sep) + sep + parts.last()
    }
}

/// The help line of an argument: a tab, its aliases joined by ` | `, ` - ` and
/// what it does.
pub open spec fn arg_line(a: LanguageArg) -> Seq<char> {
    "\t"@ + joined(views_of(a.aliases@), " | "@) + " - "@ + a.info@
}

/// The help line of a macro: a tab, its name, ` - ` and what it stands for.
pub open spec fn macro_line(m: MacroArg) -> Seq<char> {
    "\t"@ + m.name@ + " - "@ + m.info@
}

impl LanguageArg {
    /// This argument's help line.
    pub fn to_text(&self) -> (r: String)
        ensures
            r@ == arg_line(*self),
    {
        let mut r = chars_of("\t");
        let sep = chars_of(" | ");
        let mut i: usize = 0;
        let ghost v = views_of(self.aliases@);
        let ghost head = r@;
        while i < self.aliases.len()
            invariant
                i <= self.aliases@.len(),
                v == views_of(self.aliases@),
                sep@ == " | "@,
                r@ == head + joined(v.subrange(0, i as int), " | "@),
            decreases self.aliases.len() - i,
        {
            let a = chars_of(self.aliases[i].as_str());
            let ghost prev = r@;
            assert(v.subrange(0, i + 1).drop_last() =~= v.subrange(0, i as int));
            if i > 0 {
                push_all(&mut r, &sep);
            }
            push_all(&mut r, &a);
            i = i + 1;
            if i == 1 {
                assert(r@ =~= head + joined(v.subrange(0, i as int), " | "@));
            } else {
                assert(r@ =~= head + joined(v.subrange(0, i as int), " | "@));
            }
        }
        assert(v.subrange(0, i as int) =~= v);
        let d = chars_of(" - ");
        push_all(&mut r, &d);
        let info = chars_of(self.info.as_str());
        push_all(&mut r, &info);
        string_of(&r)
    }

    pub fn new(aliases: Vec<String>, info: &str) -> (r: LanguageArg)
        ensures
            r.aliases@ == aliases@,
            r.info@ == info@,
    {
        LanguageArg { aliases, info: info.to_owned() }
    }
}

/// A documented macro of a language: its name and what it stands for.
#[derive(Clone, Debug)]
pub struct MacroArg {
    pub name: String,
    pub info: String,
}

impl MacroArg {
    /// This macro's help line.
    pub fn to_text(&self) -> (r: String)
        ensures
            r@ == macro_line(*self),
    {
        let mut r = chars_of("\t");
        let n = chars_of(self.name.as_str());
        push_all(&mut r, &n);
        let d = chars_of(" - ");
        push_all(&mut r, &d);
        let info = chars_of(self.info.as_str());
        push_all(&mut r, &info);
        string_of(&r)
    }

    pub fn new(name: &str, info: &str) -> (r: MacroArg)
        ensures
            r.name@ == name@,
            r.info@ == info@,
    {
        MacroArg { name: name.to_owned(), info: info.to_owned() }
    }
}

/// The help section of a language descriptor.
#[derive(Clone, Debug)]
pub struct LanguageHelp {
    pub arguments: Vec<LanguageArg>,
    pub macros: Vec<MacroArg>,
}

/// A help key is usable when it is absent or a list of strings of even length.
pub open spec fn pairs_ok(v: Option<ConfigValue>) -> bool {
    match v {
        None => true,
        Some(ConfigValue::TextList(a)) => a@.len() % 2 == 0,
        Some(_) => false,
    }
}

/// The strings of a usable help key.
pub open spec fn pair_items(v: Option<ConfigValue>) -> Seq<Seq<char>> {
    match v {
        Some(ConfigValue::TextList(a)) => views_of(a@),
        _ => Seq::empty(),
    }
}

/// Why a help key cannot be used.
pub open spec fn pairs_error(key: Seq<char>, v: Option<ConfigValue>) -> Seq<char> {
    match v {
        Some(ConfigValue::TextList(a)) => "Cannot create LanguageHelp from section: '"@ + key
            + "' array contains an odd number of strings."@,
        _ => "Cannot create LanguageHelp from section: '"@ + key + "' key value type is not an array."@,
    }
}

/// The argument documented by the strings `items[2k]` (aliases, split at commas)
/// and `items[2k + 1]` (what it does).
pub open spec fn arg_matches(a: LanguageArg, items: Seq<Seq<char>>, k: int) -> bool {
    &&& views_of(a.aliases@) == split_on(items[2 * k], ',').map_values(|p: Seq<char>| trimmed(p))
    &&& a.info@ == items[2 * k + 1]
}

/// The macro documented by the strings `items[2k]` (name) and `items[2k + 1]`.
pub open spec fn macro_matches(m: MacroArg, items: Seq<Seq<char>>, k: int) -> bool {
    &&& m.name@ == items[2 * k]
    &&& m.info@ == items[2 * k + 1]
}

fn pairs_failure(key: &str, v: &Option<ConfigValue>) -> (r: SMError)
    requires
        !pairs_ok(*v),
    ensures
        r.message@ == pairs_error(key@, *v),
{
    let m = match v {
        Some(ConfigValue::TextList(_)) => {
            let a = crate::text::concat("Cannot create LanguageHelp from section: '", key);
            crate::text::concat(a.as_str(), "' array contains an odd number of strings.")
        },
        _ => {
            let a = crate::text::concat("Cannot create LanguageHelp from section: '", key);
            crate::text::concat(a.as_str(), "' key value type is not an array.")
        },
    };
    make_error(m.as_str())
}

impl LanguageHelp {
    pub fn new(args: Vec<LanguageArg>, macros: Vec<MacroArg>) -> (r: LanguageHelp)
        ensures
            r.arguments@ == args@,
            r.macros@ == macros@,
    {
        LanguageHelp { arguments: args, macros }
    }

    /// Reads the `arguments` and `macros` keys of a help section: each is a list of
    /// strings taken two by two, a name (for arguments, aliases separated by
    /// commas) and its description.
    pub fn from_section(arguments: &Option<ConfigValue>, macros: &Option<ConfigValue>) -> (r: Result<
        LanguageHelp,
        SMError,
    >)
        ensures
            r is Ok <==> pairs_ok(*arguments) && pairs_ok(*macros),
            !pairs_ok(*arguments) ==> r is Err && r->Err_0.message@ == pairs_error(
                "arguments"@,
                *arguments,
            ),
            pairs_ok(*arguments) && !pairs_ok(*macros) ==> r is Err && r->Err_0.message@
                == pairs_error("macros"@, *macros),
            r is Ok ==> {
                let h = r->Ok_0;
                let ai = pair_items(*arguments);
                let mi = pair_items(*macros);
                &&& h.arguments@.len() * 2 == ai.len()
                &&& h.macros@.len() * 2 == mi.len()
                &&& forall|k: int| 0 <= k < h.arguments@.len() ==> arg_matches(#[trigger] h.arguments@[k], ai, k)
                &&& forall|k: int| 0 <= k < h.macros@.len() ==> macro_matches(#[trigger] h.macros@[k], mi, k)
            },
    {
        let empty: Vec<String> = Vec::new();
        let argarr: &Vec<String> = match arguments {
            None => &empty,
            Some(ConfigValue::TextList(a)) => {
                if a.len() % 2 == 1 {
                    return Err(pairs_failure("arguments", arguments));
                }
                a
            },
            Some(_) => {
                return Err(pairs_failure("arguments", arguments));
            },
        };
        let macarr: &Vec<String> = match macros {
            None => &empty,
            Some(ConfigValue::TextList(a)) => {
                if a.len() % 2 == 1 {
                    return Err(pairs_failure("macros", macros));
                }
                a
            },
            Some(_) => {
                return Err(pairs_failure("macros", macros));
            },
        };
        let ghost ai = pair_items(*arguments);
        let ghost mi = pair_items(*macros);
        assert(views_of(argarr@) == ai);
        assert(views_of(macarr@) == mi);
        let mut args: Vec<LanguageArg> = Vec::new();
        let mut i: usize = 0;
        while i < argarr.len()
            invariant
                argarr@.len() % 2 == 0,
                views_of(argarr@) == ai,
                i % 2 == 0,
                i <= argarr.len(),
                args@.len() * 2 == i,
                forall|k: int| 0 <= k < args@.len() ==> arg_matches(#[trigger] args@[k], ai, k),
            decreases argarr.len() - i,
        {
            let aliases = split_trimmed(argarr[i].as_str(), ',');
            let a = LanguageArg::new(aliases, argarr[i + 1].as_str());
            assert(ai[i as int] == argarr@[i as int]@);
            assert(ai[i + 1] == argarr@[i + 1]@);
            args.push(a);
            i = i + 2;
        }
        let mut macs: Vec<MacroArg> = Vec::new();
        let mut j: usize = 0;
        while j < macarr.len()
            invariant
                macarr@.len() % 2 == 0,
                views_of(macarr@) == mi,
                j % 2 == 0,
                j <= macarr.len(),
                macs@.len() * 2 == j,
                forall|k: int| 0 <= k < macs@.len() ==> macro_matches(#[trigger] macs@[k], mi, k),
            decreases macarr.len() - j,
        {
            let m = MacroArg::new(macarr[j].as_str(), macarr[j + 1].as_str());
            assert(mi[j as int] == macarr@[j as int]@);
            assert(mi[j + 1] == macarr@[j + 1]@);
            macs.push(m);
            j = j + 2;
        }
        Ok(LanguageHelp::new(args, macs))
    }
}

} // verus!
