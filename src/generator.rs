use vstd::prelude::*;

use crate::clock::Timestamp;
use crate::data::AppData;
use crate::error::{make_error, SMError};
use crate::expand::{expand_builtin, replace_universal_macros, MacroContext, MacroValues};
use crate::name::{is_valid_file_path, name_of_path, path_to_name, valid_file_path};
use crate::paths::{extension_of, file_name_of, get_extention, get_file_name, unified};
use crate::expand::has_blank_run;
use crate::script::{holds_macro_token, scripted_passes, MacroScript, ScanOutcome};
use crate::text::{
    chars_of, concat, last_index, lemma_last_index, lower_of, lowercase, rfind_char, same_chars,
    slice_chars, string_of, text_is, trim_text, trimmed, views_of,
};

verus! {

/// The template paths, in order, whose file stem lower-cases to `filetype`.
pub open spec fn matching_templates(paths: Seq<Seq<char>>, filetype: Seq<char>) -> Seq<Seq<char>>
    decreases paths.len(),
{
    if paths.len() == 0 {
        Seq::empty()
    } else {
        let init = matching_templates(paths.drop_last(), filetype);
        if lower_of(file_name_of(paths.last(), false)) == filetype {
            init.push(paths.last())
        } else {
            init
        }
    }
}

/// The template paths whose file stem, lower-cased, is `filetype`.
pub fn select_templates(paths: &Vec<String>, filetype: &str) -> (r: Vec<String>)
    ensures
        views_of(r@) == matching_templates(views_of(paths@), filetype@),
{
    let ft = chars_of(filetype);
    let mut r: Vec<String> = Vec::new();
    let mut i: usize = 0;
    while i < paths.len()
        invariant
            i <= paths.len(),
            ft@ == filetype@,
            views_of(r@) == matching_templates(views_of(paths@).subrange(0, i as int), filetype@),
        decreases paths.len() - i,
    {
        let ghost before = views_of(paths@).subrange(0, i as int);
        let ghost after = views_of(paths@).subrange(0, i + 1);
        assert(after.drop_last() =~= before);
        assert(after.last() == paths@[i as int]@);
        let stem = get_file_name(paths[i].as_str(), false);
        let lo = lowercase(stem.as_str());
        let lc = chars_of(lo.as_str());
        if same_chars(&lc, &ft) {
            let ghost old_r = r@;
            let p = paths[i].clone();
            r.push(p);
            assert(views_of(r@) =~= views_of(old_r).push(paths@[i as int]@));
        }
        i = i + 1;
    }
    assert(views_of(paths@).subrange(0, i as int) =~= views_of(paths@));
    r
}

/// Checks a request before any file is generated and picks its templates: the
/// target name must be a valid path, the language must exist and have templates,
/// and one of them must match the file kind.
pub fn plan_generation(data: &AppData, templates: &Vec<String>) -> (r: Result<Vec<String>, SMError>)
    ensures
        r is Ok <==> valid_file_path(data.name@) && data.language < data.languages@.len()
            && templates@.len() > 0 && matching_templates(views_of(templates@), data.filetype@).len()
            > 0,
        !valid_file_path(data.name@) ==> r is Err && r->Err_0.message@
            == "Unable to generate file(s): The given name is not a valid file name or path."@,
        valid_file_path(data.name@) && data.language >= data.languages@.len() ==> r is Err
            && r->Err_0.message@ == "Unable to generate file(s): AppData is invalid."@,
        valid_file_path(data.name@) && data.language < data.languages@.len() && templates@.len()
            == 0 ==> r is Err && r->Err_0.message@
            == "Unable to generate file(s): There are no templates for the language "@
            + data.languages@[data.language as int].name@ + "."@,
        valid_file_path(data.name@) && data.language < data.languages@.len() && templates@.len() > 0
            && matching_templates(views_of(templates@), data.filetype@).len() == 0 ==> r is Err
            && r->Err_0.message@ == "The language "@ + data.languages@[data.language as int].name@
            + " does not have the template "@ + data.filetype@ + "."@,
        r is Ok ==> views_of(r->Ok_0@) == matching_templates(views_of(templates@), data.filetype@),
{
    if !data.valid() {
        if !is_valid_file_path(data.name.as_str()) {
            return Err(
                make_error(
                    "Unable to generate file(s): The given name is not a valid file name or path.",
                ),
            );
        }
        return Err(make_error("Unable to generate file(s): AppData is invalid."));
    }
    let lname = &data.languages[data.language].name;
    if templates.len() == 0 {
        let a = concat(
            "Unable to generate file(s): There are no templates for the language ",
            lname.as_str(),
        );
        let m = concat(a.as_str(), ".");
        return Err(make_error(m.as_str()));
    }
    let chosen = select_templates(templates, data.filetype.as_str());
    if chosen.len() == 0 {
        let a = concat("The language ", lname.as_str());
        let b = concat(a.as_str(), " does not have the template ");
        let c = concat(b.as_str(), data.filetype.as_str());
        let m = concat(c.as_str(), ".");
        return Err(make_error(m.as_str()));
    }
    Ok(chosen)
}

/// What the built-in macros stand for when `template_path` is generated for
/// `data` at `time`.
pub open spec fn unit_values(data: AppData, template_path: Seq<char>, time: Timestamp) -> MacroValues {
    MacroValues {
        file_name: file_name_of(data.name@, true),
        file_ext: extension_of(template_path),
        safe_name: name_of_path(data.name@, '_'),
        author: data.author@,
        time,
    }
}

/// The macro context of one generation unit.
pub fn unit_context(data: &AppData, template_path: &str, time: Timestamp) -> (r: MacroContext)
    ensures
        r@ == unit_values(*data, template_path@, time),
{
    let file_name = get_file_name(data.name.as_str(), true);
    let ext = get_extention(template_path);
    let safe = path_to_name(data.name.as_str(), '_');
    MacroContext::new(file_name.as_str(), ext.as_str(), safe.as_str(), data.author.as_str(), time)
}

/// Expands the template of one generation unit. With a script, the script runs
/// first (see `MacroScript::expand`); without one, only the built-in macros and
/// blank-line normalisation apply.
pub fn generate_content(
    data: &AppData,
    template_path: &str,
    template: &str,
    script_source: Option<&str>,
    time: Timestamp,
) -> (r: Result<String, SMError>)
    requires
        time.wf(),
    ensures
        script_source is None ==> r is Ok && r->Ok_0@ == expand_builtin(
            template@,
            unit_values(*data, template_path@, time),
        ),
        r is Ok && !holds_macro_token(template@) ==> r->Ok_0@ == expand_builtin(
            template@,
            unit_values(*data, template_path@, time),
        ),
        script_source is Some && r is Ok ==> exists|log: Seq<(Seq<char>, Seq<char>)>|
            (#[trigger] scripted_passes(template@, log) matches ScanOutcome::Done(d) && r->Ok_0@
                == expand_builtin(d, unit_values(*data, template_path@, time))),
        r is Ok ==> !has_blank_run(r->Ok_0@),
{
    let c = unit_context(data, template_path, time);
    match script_source {
        None => Ok(replace_universal_macros(&c, template)),
        Some(source) => {
            let stem = get_file_name(template_path, false);
            let safe = path_to_name(data.name.as_str(), '_');
            let mut script = match MacroScript::load(source, stem.as_str(), safe.as_str(), &data.args) {
                Ok(s) => s,
                Err(e) => {
                    return Err(e);
                },
            };
            let r = script.expand(template, &c);
            proof {
                if r is Ok {
                    let log = script.calls().subrange(0, script.calls().len() as int);
                    assert(scripted_passes(template@, log) matches ScanOutcome::Done(d) && r->Ok_0@
                        == expand_builtin(d, c@));
                }
            }
            r
        },
    }
}

/// What to do with an output path.
#[derive(Clone, Copy, Debug, PartialEq, Eq, Structural)]
pub enum WriteAction {
    Write,
    Skip,
    /// Ask whoever runs the program.
    Ask,
}

/// Whether to write an output: always when nothing is there; else as the
/// overwrite policy says, asking when it says nothing.
pub fn write_action(exists: bool, overwrite: Option<bool>) -> (r: WriteAction)
    ensures
        !exists ==> r == WriteAction::Write,
        exists && overwrite is None ==> r == WriteAction::Ask,
        exists && overwrite == Some(true) ==> r == WriteAction::Write,
        exists && overwrite == Some(false) ==> r == WriteAction::Skip,
{
    if !exists {
        WriteAction::Write
    } else {
        match overwrite {
            None => WriteAction::Ask,
            Some(true) => WriteAction::Write,
            Some(false) => WriteAction::Skip,
        }
    }
}

/// Whether an answer to the overwrite question is a yes: `y` or `yes`, whatever
/// the case and surrounding spaces.
pub fn confirms_overwrite(answer: &str) -> (r: bool)
    ensures
        r == (lower_of(trimmed(answer@)) == "y"@ || lower_of(trimmed(answer@)) == "yes"@),
{
    let t = trim_text(answer);
    let lo = lowercase(t.as_str());
    text_is(lo.as_str(), "y") || text_is(lo.as_str(), "yes")
}

/// The output's file name: the target's file name, then a dot and the template's
/// extension.
pub fn output_file_name(name: &str, template_path: &str) -> (r: String)
    ensures
        r@ == file_name_of(name@, true) + "."@ + extension_of(template_path@),
{
    let f = get_file_name(name, true);
    let e = get_extention(template_path);
    let a = concat(f.as_str(), ".");
    concat(a.as_str(), e.as_str())
}

/// The directories of the target name, before its file name: what precedes its
/// last separator, or nothing.
pub fn output_subdirectory(name: &str) -> (r: String)
    ensures
        last_index(unified(name@), '/') < 0 ==> r@.len() == 0,
        last_index(unified(name@), '/') >= 0 ==> r@ == unified(name@).subrange(
            0,
            last_index(unified(name@), '/'),
        ),
{
    let u = chars_of(crate::paths::unify_separators(name).as_str());
    proof {
        lemma_last_index(u@, '/');
    }
    match rfind_char(&u, '/') {
        Some(i) => {
            assert(i < u.len());
            string_of(&slice_chars(&u, 0, i))
        },
        None => String::new(),
    }
}

} // verus!
