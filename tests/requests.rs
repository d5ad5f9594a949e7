use srcmake::clock::Timestamp;
use srcmake::cli::{parse_command, Command};
use srcmake::data::AppData;
use srcmake::flags::{is_compatible, FileType, Language as Lang};
use srcmake::generator::{
    confirms_overwrite, output_file_name, output_subdirectory, plan_generation, select_templates,
    write_action, WriteAction,
};
use srcmake::help::{ConfigValue, LanguageArg, LanguageHelp, MacroArg};
use srcmake::language::{language_index, Language};
use srcmake::version::{current_version, Version};

fn strings(v: &[&str]) -> Vec<String> {
    v.iter().map(|s| s.to_string()).collect()
}

fn languages() -> Vec<Language> {
    vec![
        Language::new("C++", "cpp", strings(&["cpp", "C++"]), "", None),
        Language::new("C#", "cs", strings(&["cs", "CSharp"]), "cs.lua", None),
    ]
}

#[test]
fn flag_languages() {
    assert_eq!(Lang::from_string(" C++ "), Some(Lang::Cpp));
    assert_eq!(Lang::from_string("CS"), Some(Lang::CSharp));
    assert_eq!(Lang::from_string("c"), Some(Lang::C));
    assert_eq!(Lang::from_string("Rust"), Some(Lang::Rust));
    assert_eq!(Lang::from_string("go"), None);
}

#[test]
fn flag_file_types() {
    assert_eq!(FileType::from_string("ClassHeader"), Some(FileType::ClassHeader));
    assert_eq!(FileType::from_string(" singleton03source"), Some(FileType::Singleton03Source));
    assert_eq!(FileType::from_string("MonoBehaviour"), Some(FileType::MonoBehaviour));
    assert_eq!(FileType::from_string("x"), None);
    assert!(FileType::Struct.is_header());
    assert!(FileType::TemplateHeader.is_header());
    assert!(!FileType::Source.is_header());
}

#[test]
fn flag_compatibility() {
    assert!(!is_compatible(Lang::C, FileType::Class));
    assert!(is_compatible(Lang::Cpp, FileType::TemplateSource));
    assert!(is_compatible(Lang::CSharp, FileType::MonoBehaviour));
    assert!(is_compatible(Lang::Rust, FileType::Trait));
    assert!(!is_compatible(Lang::Rust, FileType::Header));
}

#[test]
fn alias_lookup() {
    let langs = languages();
    assert_eq!(language_index("C++", &langs), 0);
    assert_eq!(language_index("csharp", &langs), 1);
    assert_eq!(language_index("java", &langs), 2);
}

#[test]
fn choosing_a_language() {
    let mut d = AppData::new(languages(), "/work");
    assert!(d.set_language("CSHARP"));
    assert_eq!(d.language, 1);
    assert!(!d.set_language("go"));
    assert_eq!(d.language, 1);
    assert!(!d.set_language(""));
    assert_eq!(d.get_language().unwrap().name, "C#");
    d.language = 7;
    assert!(d.get_language().is_none());
    let mut empty = AppData::new(vec![], "/work");
    assert!(!empty.set_language("cpp"));
}

#[test]
fn reading_flags() {
    let mut d = AppData::new(languages(), "/work");
    d.set_args(strings(&["--au", "Bob", "--O", "x"]));
    assert_eq!(d.author, "Bob");
    assert_eq!(d.overwrite, Some(true));
    assert_eq!(d.args, strings(&["--au", "Bob", "--O", "x"]));
    d.set_args(strings(&["--no_overwrite", "--author"]));
    assert_eq!(d.overwrite, Some(false));
    assert_eq!(d.author, "Bob");
}

#[test]
fn validity() {
    let mut d = AppData::new(languages(), "/work");
    d.name = "a/b".to_string();
    assert!(d.valid());
    d.name = String::new();
    assert!(!d.valid());
    d.name = "a".to_string();
    d.language = 2;
    assert!(!d.valid());
}

#[test]
fn configuring_a_request() {
    let mut d = AppData::new(languages(), "/work");
    let e = d.configure("go", "Class", "Foo", vec![]).err().unwrap();
    assert_eq!(e.message(), "go is not a valid language alias.");
    let e = d.configure("cs", "Class", "a//b", vec![]).err().unwrap();
    assert_eq!(e.message(), "Invalid name given.");
    assert_eq!(d.language, 0);
    assert_eq!(d.filetype, "");
    assert!(d.configure("cs", "Class", "src/Foo", strings(&["--o"])).is_ok());
    assert_eq!(d.language, 1);
    assert_eq!(d.filetype, "class");
    assert_eq!(d.name, "src/Foo");
    assert_eq!(d.overwrite, Some(true));
}

#[test]
fn help_sections() {
    let h = LanguageHelp::from_section(
        &Some(ConfigValue::TextList(strings(&["-a, --all ", "All things"]))),
        &Some(ConfigValue::TextList(strings(&["$X$", "An x"]))),
    )
    .ok()
    .unwrap();
    assert_eq!(h.arguments[0].aliases, strings(&["-a", "--all"]));
    assert_eq!(h.arguments[0].info, "All things");
    assert_eq!(h.macros[0].name, "$X$");
    assert_eq!(h.arguments[0].to_text(), "\t-a | --all - All things");
    assert_eq!(h.macros[0].to_text(), "\t$X$ - An x");
    let none = LanguageHelp::from_section(&None, &None).ok().unwrap();
    assert!(none.arguments.is_empty() && none.macros.is_empty());
}

#[test]
fn help_section_errors() {
    let e = LanguageHelp::from_section(&Some(ConfigValue::TextList(strings(&["a"]))), &None);
    assert_eq!(
        e.err().unwrap().message(),
        "Cannot create LanguageHelp from section: 'arguments' array contains an odd number of strings."
    );
    let e = LanguageHelp::from_section(&None, &Some(ConfigValue::Text("x".to_string())));
    assert_eq!(
        e.err().unwrap().message(),
        "Cannot create LanguageHelp from section: 'macros' key value type is not an array."
    );
}

#[test]
fn help_items() {
    let a = LanguageArg::new(strings(&["-x"]), "Ex");
    assert_eq!(a.to_text(), "\t-x - Ex");
    let m = MacroArg::new("$Y$", "Why");
    assert_eq!(m.info, "Why");
    let h = LanguageHelp::new(vec![a], vec![m]);
    assert_eq!(h.arguments.len(), 1);
}

#[test]
fn descriptors() {
    let text = |s: &str| Some(ConfigValue::Text(s.to_string()));
    let l = Language::from_document(&text("C#"), &text("cs"), &Some(ConfigValue::TextList(strings(&["cs"]))), &text(""), None)
        .ok()
        .unwrap();
    assert_eq!(l.name, "C#");
    assert_eq!(l.aliases, strings(&["cs"]));
    assert!(!l.has_script());
    assert_eq!(l.template_directory("/opt/sm/"), "/opt/sm/templates/cs");
    let e = Language::from_document(&None, &text("cs"), &None, &None, None).err().unwrap();
    assert_eq!(e.message(), "Cannot load Language from document: No 'name' key in Language section.");
    let e = Language::from_document(&text("C#"), &Some(ConfigValue::Other), &None, &None, None).err().unwrap();
    assert_eq!(
        e.message(),
        "Cannot load Language from document: 'template_dir' key has wrong value type in Language section."
    );
    let e = Language::from_document(&text("C#"), &text("cs"), &text("cs"), &text(""), None).err().unwrap();
    assert_eq!(
        e.message(),
        "Cannot load Language from document: 'aliases' key has wrong value type in Language section."
    );
    let e = Language::from_document(&text("C#"), &text("cs"), &Some(ConfigValue::TextList(vec![])), &text(""), None)
        .err()
        .unwrap();
    assert_eq!(
        e.message(),
        "Cannot load Language from document: 'aliases' list is empty in Language section."
    );
    let e = Language::from_document(&text("C#"), &text("cs"), &Some(ConfigValue::TextList(strings(&["cs"]))), &Some(ConfigValue::Other), None)
        .err()
        .unwrap();
    assert_eq!(
        e.message(),
        "Cannot load Language from document: 'script' key has wrong value type in Language section."
    );
    assert!(languages()[1].has_script());
}

#[test]
fn versions() {
    assert_eq!(Version::new(0, 2, 0, 0).to_text(), "0.2.0.0");
    assert_eq!(Version::new(12, 3, 45, 6).to_text(), "12.3.45.6");
    assert!(current_version() == Version::new(0, 2, 0, 0));
}

#[test]
fn timestamps() {
    assert!(Timestamp::new(2024, 13, 1, 0, 0, 0).is_none());
    assert!(Timestamp::new(2024, 12, 31, 23, 59, 6).is_some());
    assert!(Timestamp::new(2024, 1, 1, 24, 0, 0).is_none());
}

#[test]
fn command_lines() {
    assert!(matches!(parse_command(&strings(&["srcmake"])), Ok(Command::Usage)));
    assert!(matches!(parse_command(&strings(&["srcmake", "-H"])), Ok(Command::Help)));
    assert!(matches!(parse_command(&strings(&["srcmake", "-version"])), Ok(Command::Version)));
    assert!(matches!(parse_command(&strings(&["srcmake", "-p"])), Ok(Command::AddPath)));
    assert!(matches!(parse_command(&strings(&["srcmake", "-rp"])), Ok(Command::RemovePath)));
    assert!(matches!(parse_command(&strings(&["srcmake", "-h", "--ALL"])), Ok(Command::HelpAll)));
    match parse_command(&strings(&["srcmake", "-h", "Cpp"])) {
        Ok(Command::HelpLanguage(l)) => assert_eq!(l, "Cpp"),
        _ => panic!("expected language help"),
    }
    match parse_command(&strings(&["srcmake", "cpp", "Class", "Foo", "--au", "Bob"])) {
        Ok(Command::Generate { language, filetype, name, args }) => {
            assert_eq!(language, "cpp");
            assert_eq!(filetype, "class");
            assert_eq!(name, "Foo");
            assert_eq!(args, strings(&["--au", "Bob"]));
        }
        _ => panic!("expected generation"),
    }
}

#[test]
fn bad_command_lines() {
    let msg = "Invalid argument(s). Run `>srcmake -h` for help.";
    assert_eq!(parse_command(&strings(&["srcmake", "-x"])).err().unwrap().message(), msg);
    assert_eq!(parse_command(&strings(&["srcmake", "cpp", "x"])).err().unwrap().message(), msg);
}

#[test]
fn template_selection() {
    let paths = strings(&["t/Class.h", "t/class.cpp", "t/main.c", "t/classy.h"]);
    assert_eq!(select_templates(&paths, "class"), strings(&["t/Class.h", "t/class.cpp"]));
    assert!(select_templates(&paths, "header").is_empty());
}

#[test]
fn planning() {
    let mut d = AppData::new(languages(), "/work");
    d.filetype = "class".to_string();
    d.name = "a//b".to_string();
    let t = strings(&["t/class.h"]);
    assert_eq!(
        plan_generation(&d, &t).err().unwrap().message(),
        "Unable to generate file(s): The given name is not a valid file name or path."
    );
    d.name = "Foo".to_string();
    d.language = 5;
    assert_eq!(plan_generation(&d, &t).err().unwrap().message(), "Unable to generate file(s): AppData is invalid.");
    d.language = 0;
    assert_eq!(
        plan_generation(&d, &vec![]).err().unwrap().message(),
        "Unable to generate file(s): There are no templates for the language C++."
    );
    d.filetype = "header".to_string();
    assert_eq!(plan_generation(&d, &t).err().unwrap().message(), "The language C++ does not have the template header.");
    d.filetype = "class".to_string();
    assert_eq!(plan_generation(&d, &t).ok().unwrap(), t);
}

#[test]
fn overwriting() {
    assert_eq!(write_action(false, Some(false)), WriteAction::Write);
    assert_eq!(write_action(true, None), WriteAction::Ask);
    assert_eq!(write_action(true, Some(true)), WriteAction::Write);
    assert_eq!(write_action(true, Some(false)), WriteAction::Skip);
    assert!(confirms_overwrite(" Yes\n"));
    assert!(confirms_overwrite("y"));
    assert!(!confirms_overwrite("no"));
}

#[test]
fn output_paths() {
    assert_eq!(output_file_name("src/widget", "t/class.hpp"), "widget.hpp");
    assert_eq!(output_subdirectory("src\\ui/widget"), "src/ui");
    assert_eq!(output_subdirectory("widget"), "");
}
