use vstd::prelude::*;

use crate::text::{lower_of, lowercase, text_is, trim_text, trimmed};

verus! {

/// The languages of the closed table of file kinds.
#[derive(Debug, PartialEq, Eq, Clone, Copy, Hash)]
pub enum Language {
    C,
    Cpp,
    CSharp,
    Rust,
}

/// The language that a lower-case, trimmed flag names.
pub open spec fn language_named(t: Seq<char>) -> Option<Language> {
    if t == "c"@ {
        Some(Language::C)
    } else if t == "cpp"@ || t == "cplusplus"@ || t == "c++"@ {
        Some(Language::Cpp)
    } else if t == "csharp"@ || t == "cs"@ || t == "c#"@ {
        Some(Language::CSharp)
    } else if t == "rust"@ {
        Some(Language::Rust)
    } else {
        None
    }
}

impl Language {
    /// The language that a lower-case, trimmed flag names.
    pub fn from_lowercase(t: &str) -> (r: Option<Language>)
        ensures
            r == language_named(t@),
    {
        if text_is(t, "c") {
            Some(Language::C)
        } else if text_is(t, "cpp") || text_is(t, "cplusplus") || text_is(t, "c++") {
            Some(Language::Cpp)
        } else if text_is(t, "csharp") || text_is(t, "cs") || text_is(t, "c#") {
            Some(Language::CSharp)
        } else if text_is(t, "rust") {
            Some(Language::Rust)
        } else {
            None
        }
    }

    /// The language that a flag names, whatever its case and surrounding spaces.
    pub fn from_string(s: &str) -> (r: Option<Language>)
        ensures
            r == language_named(lower_of(trimmed(s@))),
    {
        let t = trim_text(s);
        let l = lowercase(t.as_str());
        Language::from_lowercase(l.as_str())
    }
}

/// The kinds of file of the closed table.
#[derive(Debug, PartialEq, Eq, Clone, Copy, Hash)]
pub enum FileType {
    Main,
    Struct,
    Header,
    Source,
    Class,
    ClassHeader,
    ClassSource,
    Singleton,
    SingletonHeader,
    SingletonSource,
    Singleton03,
    Singleton03Header,
    Singleton03Source,
    Template,
    TemplateHeader,
    TemplateSource,
    Interface,
    MonoBehaviour,
    ScriptableObject,
    Lib,
    Trait,
}

/// The file kind that a lower-case, trimmed flag names.
pub open spec fn file_type_named(t: Seq<char>) -> Option<FileType> {
    if t == "main"@ {
        Some(FileType::Main)
    } else if t == "header"@ {
        Some(FileType::Header)
    } else if t == "source"@ {
        Some(FileType::Source)
    } else if t == "struct"@ {
        Some(FileType::Struct)
    } else if t == "class"@ {
        Some(FileType::Class)
    } else if t == "classheader"@ {
        Some(FileType::ClassHeader)
    } else if t == "classsource"@ {
        Some(FileType::ClassSource)
    } else if t == "singleton"@ {
        Some(FileType::Singleton)
    } else if t == "singletonheader"@ {
        Some(FileType::SingletonHeader)
    } else if t == "singletonsource"@ {
        Some(FileType::SingletonSource)
    } else if t == "singleton03"@ {
        Some(FileType::Singleton03)
    } else if t == "singleton03header"@ {
        Some(FileType::Singleton03Header)
    } else if t == "singleton03source"@ {
        Some(FileType::Singleton03Source)
    } else if t == "template"@ {
        Some(FileType::Template)
    } else if t == "templateheader"@ {
        Some(FileType::TemplateHeader)
    } else if t == "templatesource"@ {
        Some(FileType::TemplateSource)
    } else if t == "interface"@ {
        Some(FileType::Interface)
    } else if t == "monobehaviour"@ {
        Some(FileType::MonoBehaviour)
    } else if t == "scriptableobject"@ {
        Some(FileType::ScriptableObject)
    } else if t == "lib"@ {
        Some(FileType::Lib)
    } else if t == "trait"@ {
        Some(FileType::Trait)
    } else {
        None
    }
}

/// The kinds that declare rather than define.
pub open spec fn is_header_kind(f: FileType) -> bool {
    f == FileType::Header
        || f == FileType::Struct
        || f == FileType::ClassHeader
        || f == FileType::SingletonHeader
        || f == FileType::Singleton03Header
        || f == FileType::TemplateHeader
}

/// Which kinds each language has.
pub open spec fn compatible(l: Language, f: FileType) -> bool {
    match l {
        Language::C => f == FileType::Main
            || f == FileType::Header
            || f == FileType::Source
            || f == FileType::Struct,
        Language::Cpp => f == FileType::Main
            || f == FileType::Header
            || f == FileType::Source
            || f == FileType::Struct
            || f == FileType::Class
            || f == FileType::ClassHeader
            || f == FileType::ClassSource
            || f == FileType::Singleton
            || f == FileType::SingletonHeader
            || f == FileType::SingletonSource
            || f == FileType::Singleton03
            || f == FileType::Singleton03Header
            || f == FileType::Singleton03Source
            || f == FileType::Template
            || f == FileType::TemplateHeader
            || f == FileType::TemplateSource,
        Language::CSharp => f == FileType::Main
            || f == FileType::Class
            || f == FileType::Struct
            || f == FileType::Interface
            || f == FileType::Singleton
            || f == FileType::MonoBehaviour
            || f == FileType::ScriptableObject,
        Language::Rust => f == FileType::Main
            || f == FileType::Lib
            || f == FileType::Struct
            || f == FileType::Trait,
    }
}

impl FileType {
    /// The file kind that a lower-case, trimmed flag names.
    pub fn from_lowercase(t: &str) -> (r: Option<FileType>)
        ensures
            r == file_type_named(t@),
    {
        if text_is(t, "main") {
            Some(FileType::Main)
        } else if text_is(t, "header") {
            Some(FileType::Header)
        } else if text_is(t, "source") {
            Some(FileType::Source)
        } else if text_is(t, "struct") {
            Some(FileType::Struct)
        } else if text_is(t, "class") {
            Some(FileType::Class)
        } else if text_is(t, "classheader") {
            Some(FileType::ClassHeader)
        } else if text_is(t, "classsource") {
            Some(FileType::ClassSource)
        } else if text_is(t, "singleton") {
            Some(FileType::Singleton)
        } else if text_is(t, "singletonheader") {
            Some(FileType::SingletonHeader)
        } else if text_is(t, "singletonsource") {
            Some(FileType::SingletonSource)
        } else if text_is(t, "singleton03") {
            Some(FileType::Singleton03)
        } else if text_is(t, "singleton03header") {
            Some(FileType::Singleton03Header)
        } else if text_is(t, "singleton03source") {
            Some(FileType::Singleton03Source)
        } else if text_is(t, "template") {
            Some(FileType::Template)
        } else if text_is(t, "templateheader") {
            Some(FileType::TemplateHeader)
        } else if text_is(t, "templatesource") {
            Some(FileType::TemplateSource)
        } else if text_is(t, "interface") {
            Some(FileType::Interface)
        } else if text_is(t, "monobehaviour") {
            Some(FileType::MonoBehaviour)
        } else if text_is(t, "scriptableobject") {
            Some(FileType::ScriptableObject)
        } else if text_is(t, "lib") {
            Some(FileType::Lib)
        } else if text_is(t, "trait") {
            Some(FileType::Trait)
        } else {
            None
        }
    }

    /// The file kind that a flag names, whatever its case and surrounding spaces.
    pub fn from_string(s: &str) -> (r: Option<FileType>)
        ensures
            r == file_type_named(lower_of(trimmed(s@))),
    {
        let t = trim_text(s);
        let l = lowercase(t.as_str());
        FileType::from_lowercase(l.as_str())
    }

    /// Whether this kind declares rather than defines.
    pub fn is_header(&self) -> (r: bool)
        ensures
            r == is_header_kind(*self),
    {
        match self {
            FileType::Header => true,
            FileType::Struct => true,
            FileType::ClassHeader => true,
            FileType::SingletonHeader => true,
            FileType::Singleton03Header => true,
            FileType::TemplateHeader => true,
            _ => false,
        }
    }
}

/// Whether `language` has files of kind `filetype`.
pub fn is_compatible(language: Language, filetype: FileType) -> (r: bool)
    ensures
        r == compatible(language, filetype),
{
    match language {
        Language::C => match filetype {
            FileType::Main
            | FileType::Header
            | FileType::Source
            | FileType::Struct => true,
            _ => false,
        },
        Language::Cpp => match filetype {
            FileType::Main
            | FileType::Header
            | FileType::Source
            | FileType::Struct
            | FileType::Class
            | FileType::ClassHeader
            | FileType::ClassSource
            | FileType::Singleton
            | FileType::SingletonHeader
            | FileType::SingletonSource
            | FileType::Singleton03
            | FileType::Singleton03Header
            | FileType::Singleton03Source
            | FileType::Template
            | FileType::TemplateHeader
            | FileType::TemplateSource => true,
            _ => false,
        },
        Language::CSharp => match filetype {
            FileType::Main
            | FileType::Class
            | FileType::Struct
            | FileType::Interface
            | FileType::Singleton
            | FileType::MonoBehaviour
            | FileType::ScriptableObject => true,
            _ => false,
        },
        Language::Rust => match filetype {
            FileType::Main
            | FileType::Lib
            | FileType::Struct
            | FileType::Trait => true,
            _ => false,
        },
    }
}

} // verus!
