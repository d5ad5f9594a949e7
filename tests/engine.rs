use chrono::Datelike;
use srcmake::clock::{now_utc, Timestamp};
use srcmake::data::AppData;
use srcmake::expand::{replace_universal_macros, MacroContext};
use srcmake::generator::generate_content;
use srcmake::script::{apply_reply, replace_macro_check, MacroScript};

fn time_2024() -> Timestamp {
    Timestamp::new(2024, 3, 7, 9, 5, 3).unwrap()
}

fn context(name: &str, author: &str) -> MacroContext {
    MacroContext::new("World.cs", "cs", name, author, time_2024())
}

fn chars(s: &str) -> Vec<char> {
    s.chars().collect()
}

#[test]
fn hello_world_example() {
    let out = replace_universal_macros(&context("World", ""), "Hello $NAME$, today is $YEAR$.");
    assert_eq!(out, "Hello World, today is 2024.");
}

#[test]
fn every_builtin_macro() {
    let c = context("World", "Ann");
    let t = "$FILE_NAME$|$FILE_EXT$|$NAME$|$AUTHOR$|$DATETIME$|$DATE$|$TIME$|$YEAR$|$MONTH_NUM$|$MONTH$|$DAY$|$WEEKDAY$";
    let out = replace_universal_macros(&c, t);
    assert_eq!(out, "World.cs|cs|World|Ann|2024-03-07: 09:05|2024-03-07|09:05|2024|3|March|3|Thu");
}

#[test]
fn negative_year_is_signed() {
    let c = MacroContext::new("a", "b", "c", "d", Timestamp::new(-44, 12, 25, 23, 59, 6).unwrap());
    assert_eq!(replace_universal_macros(&c, "$YEAR$ $MONTH$ $WEEKDAY$ $TIME$"), "-44 December Sun 23:59");
}

#[test]
fn text_without_dollar_is_unchanged() {
    let t = "plain text\nwith lines\n\nand no macros";
    assert_eq!(replace_universal_macros(&context("World", ""), t), t);
}

#[test]
fn expansion_twice_is_expansion_once() {
    let c = context("World", "Ann");
    let once = replace_universal_macros(&c, "// $FILE_NAME$ by $AUTHOR$\n\n\n\nclass $NAME$ {} $UNKNOWN$");
    let twice = replace_universal_macros(&c, &once);
    assert_eq!(once, twice);
    assert_eq!(once, "// World.cs by Ann\n\nclass World {} $UNKNOWN$");
}

#[test]
fn year_is_current_year() {
    let now = now_utc();
    let c = MacroContext::new("a", "b", "c", "d", now);
    let out = replace_universal_macros(&c, "$YEAR$");
    assert_eq!(out, format!("{}", chrono::Utc::now().year()));
    assert_eq!(out.len(), 4);
}

#[test]
fn three_line_feeds_become_two() {
    let c = context("World", "");
    assert_eq!(replace_universal_macros(&c, "\n\n\n"), "\n\n");
    assert_eq!(replace_universal_macros(&c, "\n\n\n\n"), "\n\n");
    assert_eq!(replace_universal_macros(&c, "a\n\n\n\n\n\n\nb"), "a\n\nb");
    assert_eq!(replace_universal_macros(&c, "a\r\n\r\n\r\nb"), "a\r\n\r\nb");
    assert_eq!(replace_universal_macros(&c, "a\n\nb"), "a\n\nb");
}

#[test]
fn declined_reply_leaves_document() {
    let doc = chars("x $NAME$ y");
    let out = apply_reply(&doc, 2, 7, &chars("$name$"));
    assert_eq!(out.doc, doc);
    assert_eq!(out.pos, 8);
    assert!(!out.replaced);
}

#[test]
fn reply_replaces_every_occurrence() {
    let doc = chars("$A$ and $A$");
    let out = apply_reply(&doc, 0, 2, &chars("hello"));
    assert_eq!(out.doc, chars("hello and hello"));
    assert_eq!(out.pos, 5);
    assert!(out.replaced);
}

#[test]
fn empty_reply_drops_double_space() {
    let doc = chars("a $X$ b");
    let out = apply_reply(&doc, 2, 4, &chars(""));
    assert_eq!(out.doc, chars("a b"));
    assert_eq!(out.pos, 2);
    let doc = chars("$X$ b");
    let out = apply_reply(&doc, 0, 2, &chars(""));
    assert_eq!(out.doc, chars("b"));
}

fn script(source: &str) -> MacroScript {
    match MacroScript::load(source, "class", "World", &vec![]) {
        Ok(s) => s,
        Err(e) => panic!("{}", e.message()),
    }
}

#[test]
fn declining_script_leaves_builtins() {
    let mut s = script("function ReplaceMacro(m) return m end");
    let out = s.expand("Hello $NAME$, today is $YEAR$.", &context("World", "")).ok().unwrap();
    assert_eq!(out, "Hello World, today is 2024.");
}

#[test]
fn script_replaces_before_builtins() {
    let mut s = script(
        "function ReplaceMacro(m)\n if m == '$GREETING$' then return 'Hi' end\n if m == '$NAME$' then return 'Script' end\n return m\nend",
    );
    let out = s.expand("$greeting$ $NAME$ $YEAR$", &context("World", "")).ok().unwrap();
    assert_eq!(out, "Hi Script 2024");
}

#[test]
fn script_sees_bindings_and_arguments() {
    let src = "function ProcessArguments() Extra = SMArguments[2] end\nfunction ReplaceMacro(m)\n if m == '$INFO$' then return SMFileName .. ':' .. SMSafeName .. ':' .. Extra end\n return m\nend";
    let mut s = match MacroScript::load(src, "class", "World", &vec!["--x".to_string(), "yes".to_string()]) {
        Ok(s) => s,
        Err(e) => panic!("{}", e.message()),
    };
    let out = s.expand("[$INFO$]", &context("World", "")).ok().unwrap();
    assert_eq!(out, "[class:World:yes]");
}

#[test]
fn removed_macro_leaves_single_space() {
    let mut s = script("function ReplaceMacro(m) if m == '$GONE$' then return '' end return m end");
    let out = s.expand("a $GONE$ b", &context("World", "")).ok().unwrap();
    assert_eq!(out, "a b");
}

#[test]
fn invalid_token_is_skipped() {
    let mut s = script("function ReplaceMacro(m) if m == '$X$' then return 'x' end return m end");
    let out = s.expand("cost $5 and $X$", &context("World", "")).ok().unwrap();
    assert_eq!(out, "cost $5 and x");
}

#[test]
fn script_without_replace_macro_fails() {
    let r = MacroScript::load("x = 1", "class", "World", &vec![]);
    assert_eq!(r.err().unwrap().message(), "Language script missing ReplaceMacro function.");
}

#[test]
fn script_that_does_not_parse_fails() {
    let r = MacroScript::load("function (", "class", "World", &vec![]);
    assert!(r.err().unwrap().message().starts_with("Failed parsing language script: "));
}

#[test]
fn script_error_fails_the_unit() {
    let mut s = script("function ReplaceMacro(m) error('boom') end");
    let r = s.expand("$A$", &context("World", ""));
    assert!(r.err().unwrap().message().starts_with("Failed running ReplaceMacro in language script: "));
}

#[test]
fn endless_expansion_fails() {
    let mut s = script("function ReplaceMacro(m) if m == '$A$' then return '$B$' end if m == '$B$' then return '$A$' end return m end");
    let r = s.expand("$A$", &context("World", ""));
    assert_eq!(
        r.err().unwrap().message(),
        "Language script did not settle: too many macro replacements."
    );
}

#[test]
fn text_without_dollar_skips_script() {
    let mut s = script("function ReplaceMacro(m) error('never called') end");
    let out = s.expand("no macros", &context("World", "")).ok().unwrap();
    assert_eq!(out, "no macros");
}

#[test]
fn one_failing_unit_does_not_stop_another() {
    let mut data = AppData::new(vec![], "/tmp");
    data.name = "Widget".to_string();
    let failing = generate_content(&data, "t/class.h", "$A$", Some("function ReplaceMacro(m) error('boom') end"), time_2024());
    let working = generate_content(&data, "t/class.cpp", "// $FILE_NAME$ $NAME$", None, time_2024());
    assert!(failing.is_err());
    assert_eq!(working.ok().unwrap(), "// Widget $NAME$".replace("$NAME$", "Widget"));
}

#[test]
fn unit_takes_extension_from_template() {
    let mut data = AppData::new(vec![], "/tmp");
    data.name = "src/my-widget".to_string();
    data.author = "Ann".to_string();
    let out = generate_content(&data, "t/class.hpp", "$FILE_NAME$.$FILE_EXT$ $NAME$ $AUTHOR$", None, time_2024());
    assert_eq!(out.ok().unwrap(), "my-widget.hpp my_widget Ann");
}

#[test]
fn failing_process_arguments_fails_the_load() {
    let r = MacroScript::load(
        "function ReplaceMacro(m) return m end\nfunction ProcessArguments() error('bad') end",
        "class",
        "World",
        &vec![],
    );
    assert!(r
        .err()
        .unwrap()
        .message()
        .starts_with("Failed running ProcessArguments() in language script: "));
}

#[test]
fn script_reply_preempts_builtin() {
    let mut s = script("function ReplaceMacro(m) if m == \"$YEAR$\" then return \"MMXXIV\" end return m end");
    let out = s.expand("$YEAR$", &context("World", "")).ok().unwrap();
    assert_eq!(out, "MMXXIV");
}

#[test]
fn dollar_pairs_without_names_stay() {
    let mut s = script("function ReplaceMacro(m) error('never called') end");
    let out = s.expand("cost $5 or $6", &context("World", "")).ok().unwrap();
    assert_eq!(out, "cost $5 or $6");
    let again = s.expand(&out, &context("World", "")).ok().unwrap();
    assert_eq!(again, out);
}

#[test]
fn replace_macro_check_results() {
    assert!(replace_macro_check(Ok(true)).is_ok());
    assert_eq!(
        replace_macro_check(Ok(false)).err().unwrap().message(),
        "Language script missing ReplaceMacro function."
    );
    assert_eq!(
        replace_macro_check(Err("x".to_string())).err().unwrap().message(),
        "Failed ReplaceMacro check in language script: x"
    );
}
