use vstd::prelude::*;

use crate::error::{make_error, SMError};
use crate::help::{ConfigValue, LanguageHelp};
use crate::paths::templates_dir;
use crate::text::{concat, lower_of, lowercase, same_chars, chars_of, trimmed, trim_text, views_of};

verus! {

/// A language descriptor: its display name, template directory, aliases and
/// optional script.
#[derive(Clone, Debug)]
pub struct Language {
    pub name: String,
    pub template_dir: String,
    pub aliases: Vec<String>,
    /// The script's path under the scripts directory; blank when the language has
    /// none.
    pub script_path: String,
    pub help: Option<LanguageHelp>,
}

/// Whether one of a language's aliases, lower-cased, is `key`.
pub open spec fn has_alias(l: Language, key: Seq<char>) -> bool {
    exists|k: int| 0 <= k < l.aliases@.len() && lower_of(#[trigger] l.aliases@[k]@) == key
}

/// The index of the first language with an alias that lower-cases to `key`, or the
/// number of languages when there is none.
pub open spec fn index_of_alias(langs: Seq<Language>, key: Seq<char>) -> int
    decreases langs.len(),
{
    if langs.len() == 0 {
        0
    } else if has_alias(langs[0], key) {
        0
    } else {
        1 + index_of_alias(langs.drop_first(), key)
    }
}

pub proof fn lemma_index_of_alias(langs: Seq<Language>, key: Seq<char>)
    ensures
        0 <= index_of_alias(langs, key) <= langs.len(),
        index_of_alias(langs, key) < langs.len() ==> has_alias(langs[index_of_alias(langs, key)], key),
        forall|j: int| 0 <= j < index_of_alias(langs, key) ==> !has_alias(#[trigger] langs[j], key),
    decreases langs.len(),
{
    if langs.len() > 0 && !has_alias(langs[0], key) {
        lemma_index_of_alias(langs.drop_first(), key);
        assert forall|j: int| 1 <= j < langs.len() implies langs[j] == langs.drop_first()[j - 1] by {}
    }
}

/// The value of a required text key, or why there is none.
pub open spec fn text_field(v: Option<ConfigValue>) -> Option<Seq<char>> {
    match v {
        Some(ConfigValue::Text(s)) => Some(s@),
        _ => None,
    }
}

pub open spec fn list_field(v: Option<ConfigValue>) -> Option<Seq<Seq<char>>> {
    match v {
        Some(ConfigValue::TextList(a)) => Some(views_of(a@)),
        _ => None,
    }
}

/// The message for a key that is missing or of the wrong kind.
pub open spec fn field_error(key: Seq<char>, v: Option<ConfigValue>) -> Seq<char> {
    if v is None {
        "Cannot load Language from document: No '"@ + key + "' key in Language section."@
    } else {
        "Cannot load Language from document: '"@ + key + "' key has wrong value type in Language section."@
    }
}

/// An `aliases` key is usable when it is a non-empty list of strings.
pub open spec fn aliases_ok(v: Option<ConfigValue>) -> bool {
    list_field(v) matches Some(a) && a.len() > 0
}

/// Why an `aliases` key cannot be used.
pub open spec fn aliases_error(v: Option<ConfigValue>) -> Seq<char> {
    if list_field(v) is Some {
        "Cannot load Language from document: 'aliases' list is empty in Language section."@
    } else {
        field_error("aliases"@, v)
    }
}

fn field_failure(key: &str, v: &Option<ConfigValue>) -> (r: SMError)
    ensures
        r.message@ == field_error(key@, *v),
{
    let m = if v.is_none() {
        let a = concat("Cannot load Language from document: No '", key);
        concat(a.as_str(), "' key in Language section.")
    } else {
        let a = concat("Cannot load Language from document: '", key);
        concat(a.as_str(), "' key has wrong value type in Language section.")
    };
    make_error(m.as_str())
}

impl Language {
    pub fn new(
        name: &str,
        temps: &str,
        aliases: Vec<String>,
        script: &str,
        help: Option<LanguageHelp>,
    ) -> (r: Language)
        ensures
            r.name@ == name@,
            r.template_dir@ == temps@,
            r.aliases@ == aliases@,
            r.script_path@ == script@,
            r.help == help,
    {
        Language {
            name: name.to_owned(),
            template_dir: temps.to_owned(),
            aliases,
            script_path: script.to_owned(),
            help,
        }
    }

    /// Builds a language from the keys of a descriptor's `Language` section:
    /// `name`, `template_dir` and `script` must be strings and `aliases` a non-empty
    /// list of strings; the first key that is not fails the whole descriptor.
    pub fn from_document(
        name: &Option<ConfigValue>,
        template_dir: &Option<ConfigValue>,
        aliases: &Option<ConfigValue>,
        script: &Option<ConfigValue>,
        help: Option<LanguageHelp>,
    ) -> (r: Result<Language, SMError>)
        ensures
            r is Ok <==> text_field(*name) is Some && text_field(*template_dir) is Some
                && aliases_ok(*aliases) && text_field(*script) is Some,
            text_field(*name) is None ==> r is Err && r->Err_0.message@ == field_error(
                "name"@,
                *name,
            ),
            text_field(*name) is Some && text_field(*template_dir) is None ==> r is Err
                && r->Err_0.message@ == field_error("template_dir"@, *template_dir),
            text_field(*name) is Some && text_field(*template_dir) is Some && !aliases_ok(*aliases)
                ==> r is Err && r->Err_0.message@ == aliases_error(*aliases),
            text_field(*name) is Some && text_field(*template_dir) is Some && aliases_ok(*aliases)
                && text_field(*script) is None ==> r is Err && r->Err_0.message@ == field_error(
                "script"@,
                *script,
            ),
            r is Ok ==> {
                let l = r->Ok_0;
                &&& Some(l.name@) == text_field(*name)
                &&& Some(l.template_dir@) == text_field(*template_dir)
                &&& Some(views_of(l.aliases@)) == list_field(*aliases)
                &&& Some(l.script_path@) == text_field(*script)
                &&& l.help == help
            },
    {
        let n = match name {
            Some(ConfigValue::Text(s)) => s,
            _ => {
                return Err(field_failure("name", name));
            },
        };
        let t = match template_dir {
            Some(ConfigValue::Text(s)) => s,
            _ => {
                return Err(field_failure("template_dir", template_dir));
            },
        };
        let a = match aliases {
            Some(ConfigValue::TextList(v)) => v,
            _ => {
                return Err(field_failure("aliases", aliases));
            },
        };
        if a.len() == 0 {
            return Err(
                make_error(
                    "Cannot load Language from document: 'aliases' list is empty in Language section.",
                ),
            );
        }
        let s = match script {
            Some(ConfigValue::Text(s)) => s,
            _ => {
                return Err(field_failure("script", script));
            },
        };
        let mut al: Vec<String> = Vec::new();
        let mut i: usize = 0;
        while i < a.len()
            invariant
                i <= a.len(),
                views_of(al@) == views_of(a@).subrange(0, i as int),
            decreases a.len() - i,
        {
            let c = a[i].clone();
            assert(c@ == a@[i as int]@);
            let ghost old_al = al@;
            al.push(c);
            assert(views_of(al@) =~= views_of(old_al).push(c@));
            i = i + 1;
            assert(views_of(al@) =~= views_of(a@).subrange(0, i as int));
        }
        assert(views_of(a@).subrange(0, i as int) =~= views_of(a@));
        Ok(Language::new(n.as_str(), t.as_str(), al, s.as_str(), help))
    }

    /// The directory of this language's templates, under the program's directory.
    pub fn template_directory(&self, exe_dir: &str) -> (r: String)
        ensures
            r@ == exe_dir@ + "templates/"@ + self.template_dir@,
    {
        let t = templates_dir(exe_dir);
        concat(t.as_str(), self.template_dir.as_str())
    }

    /// Whether this language has a script: its script path is not blank.
    pub fn has_script(&self) -> (r: bool)
        ensures
            r == (trimmed(self.script_path@).len() > 0),
    {
        let t = trim_text(self.script_path.as_str());
        !t.as_str().is_empty()
    }
}

fn matches_alias(l: &Language, key: &Vec<char>) -> (r: bool)
    ensures
        r == has_alias(*l, key@),
{
    let mut k: usize = 0;
    while k < l.aliases.len()
        invariant
            k <= l.aliases@.len(),
            forall|j: int| 0 <= j < k ==> lower_of(#[trigger] l.aliases@[j]@) != key@,
        decreases l.aliases.len() - k,
    {
        let lo = lowercase(l.aliases[k].as_str());
        let lc = chars_of(lo.as_str());
        if same_chars(&lc, key) {
            return true;
        }
        k = k + 1;
    }
    false
}

/// The index of the first language with an alias that, lower-cased, is `key`; the
/// number of languages when there is none.
pub fn index_of_lowercase_alias(key: &str, languages: &Vec<Language>) -> (r: usize)
    ensures
        r as int == index_of_alias(languages@, key@),
{
    let kc = chars_of(key);
    proof {
        lemma_index_of_alias(languages@, key@);
    }
    let mut i: usize = 0;
    while i < languages.len()
        invariant
            i <= languages@.len(),
            kc@ == key@,
            0 <= index_of_alias(languages@, key@) <= languages@.len(),
            index_of_alias(languages@, key@) < languages@.len() ==> has_alias(
                languages@[index_of_alias(languages@, key@)],
                key@,
            ),
            forall|j: int| 0 <= j < index_of_alias(languages@, key@) ==> !has_alias(#[trigger] languages@[j], key@),
            forall|j: int| 0 <= j < i ==> !has_alias(#[trigger] languages@[j], key@),
        decreases languages.len() - i,
    {
        if matches_alias(&languages[i], &kc) {
            return i;
        }
        i = i + 1;
    }
    i
}

/// The index of the first language with an alias equal to `lang` but for case; the
/// number of languages when there is none.
pub fn language_index(lang: &str, languages: &Vec<Language>) -> (r: usize)
    ensures
        r as int == index_of_alias(languages@, lower_of(lang@)),
        r <= languages.len(),
{
    let lo = lowercase(lang);
    proof {
        lemma_index_of_alias(languages@, lower_of(lang@));
    }
    index_of_lowercase_alias(lo.as_str(), languages)
}

} // verus!
