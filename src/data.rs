use vstd::prelude::*;

use crate::error::{make_error, SMError};
use crate::language::{index_of_alias, index_of_lowercase_alias, Language};
use crate::name::{is_valid_file_path, valid_file_path};
use crate::text::{concat, lower_of, lowercase, text_is, views_of};

verus! {

/// Everything one generation request needs: the languages, the chosen one, the
/// file kind, the target name, the overwrite policy (`None`: ask), the author, the
/// working directory and the free arguments.
#[derive(Clone, Debug)]
pub struct AppData {
    pub languages: Vec<Language>,
    pub language: usize,
    pub filetype: String,
    pub name: String,
    pub overwrite: Option<bool>,
    pub author: String,
    pub directory: String,
    pub args: Vec<String>,
}

/// The overwrite policy after the first `n` arguments: the last of `--o` /
/// `--overwrite` (always) and `--no` / `--no_overwrite` (never) wins.
pub open spec fn overwrite_after(args: Seq<Seq<char>>, n: nat, init: Option<bool>) -> Option<bool>
    decreases n,
{
    if n == 0 {
        init
    } else {
        let a = lower_of(args[n - 1]);
        if a == "--o"@ || a == "--overwrite"@ {
            Some(true)
        } else if a == "--no"@ || a == "--no_overwrite"@ {
            Some(false)
        } else {
            overwrite_after(args, (n - 1) as nat, init)
        }
    }
}

/// The author after the first `n` arguments: the argument that follows the last
/// `--au` / `--author` that has one.
pub open spec fn author_after(args: Seq<Seq<char>>, n: nat, init: Seq<char>) -> Seq<char>
    decreases n,
{
    if n == 0 {
        init
    } else {
        let a = lower_of(args[n - 1]);
        if !(a == "--o"@ || a == "--overwrite"@ || a == "--no"@ || a == "--no_overwrite"@) && (a
            == "--au"@ || a == "--author"@) && n < args.len() {
            args[n as int]
        } else {
            author_after(args, (n - 1) as nat, init)
        }
    }
}

impl AppData {
    /// A request over the given languages and working directory, with nothing
    /// chosen yet.
    pub fn new(languages: Vec<Language>, directory: &str) -> (r: AppData)
        ensures
            r.languages@ == languages@,
            r.language == 0,
            r.filetype@.len() == 0,
            r.name@.len() == 0,
            r.overwrite is None,
            r.author@.len() == 0,
            r.directory@ == directory@,
            r.args@.len() == 0,
    {
        AppData {
            languages,
            language: 0,
            filetype: String::new(),
            name: String::new(),
            overwrite: None,
            author: String::new(),
            directory: directory.to_owned(),
            args: Vec::new(),
        }
    }

    /// The chosen language, when the index names one.
    pub fn get_language(&self) -> (r: Option<&Language>)
        ensures
            self.language < self.languages@.len() ==> r == Some(&self.languages@[self.language as int]),
            self.language >= self.languages@.len() ==> r is None,
    {
        if self.language >= self.languages.len() {
            None
        } else {
            Some(&self.languages[self.language])
        }
    }

    /// Chooses the first language with an alias equal to `alias` but for case.
    pub fn set_language(&mut self, alias: &str) -> (r: bool)
        ensures
            r == (old(self).languages@.len() > 0 && alias@.len() > 0 && index_of_alias(
                old(self).languages@,
                lower_of(alias@),
            ) < old(self).languages@.len()),
            r ==> final(self).language as int == index_of_alias(old(self).languages@, lower_of(alias@)),
            !r ==> final(self).language == old(self).language,
            final(self).languages == old(self).languages,
            final(self).filetype == old(self).filetype,
            final(self).name == old(self).name,
            final(self).overwrite == old(self).overwrite,
            final(self).author == old(self).author,
            final(self).directory == old(self).directory,
            final(self).args == old(self).args,
    {
        if self.languages.len() == 0 || alias.is_empty() {
            return false;
        }
        let lo = lowercase(alias);
        let i = index_of_lowercase_alias(lo.as_str(), &self.languages);
        if i < self.languages.len() {
            self.language = i;
            true
        } else {
            false
        }
    }

    /// Stores the free arguments and reads the overwrite and author flags from
    /// them.
    pub fn set_args(&mut self, args: Vec<String>)
        ensures
            final(self).args@ == args@,
            final(self).overwrite == overwrite_after(views_of(args@), args@.len(), old(self).overwrite),
            final(self).author@ == author_after(views_of(args@), args@.len(), old(self).author@),
            final(self).languages == old(self).languages,
            final(self).language == old(self).language,
            final(self).filetype == old(self).filetype,
            final(self).name == old(self).name,
            final(self).directory == old(self).directory,
    {
        self.args = args;
        let ghost v = views_of(self.args@);
        let ghost init_o = self.overwrite;
        let ghost init_a = self.author@;
        let alen = self.args.len();
        let mut i: usize = 0;
        while i < alen
            invariant
                alen == self.args@.len(),
                v == views_of(self.args@),
                self.args@ == args@,
                i <= alen,
                self.overwrite == overwrite_after(v, i as nat, init_o),
                self.author@ == author_after(v, i as nat, init_a),
                self.languages == old(self).languages,
                self.language == old(self).language,
                self.filetype == old(self).filetype,
                self.name == old(self).name,
                self.directory == old(self).directory,
            decreases alen - i,
        {
            let a = lowercase(self.args[i].as_str());
            assert(v[i as int] == self.args@[i as int]@);
            if text_is(a.as_str(), "--o") || text_is(a.as_str(), "--overwrite") {
                self.overwrite = Some(true);
            } else if text_is(a.as_str(), "--no") || text_is(a.as_str(), "--no_overwrite") {
                self.overwrite = Some(false);
            } else if (text_is(a.as_str(), "--au") || text_is(a.as_str(), "--author")) && i + 1 < alen {
                self.author = self.args[i + 1].clone();
                assert(v[i + 1] == self.args@[i + 1]@);
            }
            i = i + 1;
        }
    }

    /// Whether the target name is a valid path and the chosen language exists.
    pub fn valid(&self) -> (r: bool)
        ensures
            r == (valid_file_path(self.name@) && self.language < self.languages@.len()),
    {
        is_valid_file_path(self.name.as_str()) && self.language < self.languages.len()
    }

    /// Fills in a generation request: chooses the language by alias, sets the file
    /// kind (lower-cased) and the target name, then reads the free arguments. On
    /// an unknown alias or an invalid name the request is left as it was.
    pub fn configure(&mut self, language: &str, filetype: &str, name: &str, args: Vec<String>) -> (r:
        Result<(), SMError>)
        ensures
            !(old(self).languages@.len() > 0 && language@.len() > 0 && index_of_alias(
                old(self).languages@,
                lower_of(language@),
            ) < old(self).languages@.len()) ==> r is Err && r->Err_0.message@ == language@
                + " is not a valid language alias."@,
            r is Ok <==> (old(self).languages@.len() > 0 && language@.len() > 0 && index_of_alias(
                old(self).languages@,
                lower_of(language@),
            ) < old(self).languages@.len()) && valid_file_path(name@),
            (old(self).languages@.len() > 0 && language@.len() > 0 && index_of_alias(
                old(self).languages@,
                lower_of(language@),
            ) < old(self).languages@.len()) && !valid_file_path(name@) ==> r is Err
                && r->Err_0.message@ == "Invalid name given."@,
            r is Err ==> *final(self) == *old(self),
            r is Ok ==> {
                &&& final(self).language as int == index_of_alias(old(self).languages@, lower_of(language@))
                &&& final(self).filetype@ == lower_of(filetype@)
                &&& final(self).name@ == name@
                &&& final(self).args@ == args@
                &&& final(self).overwrite == overwrite_after(views_of(args@), args@.len(), old(self).overwrite)
                &&& final(self).author@ == author_after(views_of(args@), args@.len(), old(self).author@)
                &&& final(self).languages == old(self).languages
                &&& final(self).directory == old(self).directory
            },
    {
        let mut index = self.languages.len();
        if self.languages.len() > 0 && !language.is_empty() {
            let lo = lowercase(language);
            index = index_of_lowercase_alias(lo.as_str(), &self.languages);
        }
        if index >= self.languages.len() {
            let m = concat(language, " is not a valid language alias.");
            return Err(make_error(m.as_str()));
        }
        if !is_valid_file_path(name) {
            return Err(make_error("Invalid name given."));
        }
        self.language = index;
        self.filetype = lowercase(filetype);
        self.name = name.to_owned();
        self.set_args(args);
        Ok(())
    }
}

} // verus!
