//! User interface languages and the strings shown in them.
use vstd::prelude::*;
use crate::text::{owned, str_eq};

verus! {

/// A language of the user interface.
#[derive(Debug, Clone, Copy, PartialEq, Eq, Structural, Hash)]
pub enum Language {
    English,
    Spanish,
    French,
    German,
    Japanese,
    Chinese,
    Russian,
    Portuguese,
}

/// All languages, in the order they are offered.
pub open spec fn all_languages() -> Seq<Language> {
    seq![
        Language::English,
        Language::Spanish,
        Language::French,
        Language::German,
        Language::Japanese,
        Language::Chinese,
        Language::Russian,
        Language::Portuguese,
    ]
}

/// A language's name in that language.
pub open spec fn language_name(l: Language) -> Seq<char> {
    match l {
        Language::English => "English"@,
        Language::Spanish => "Español"@,
        Language::French => "Français"@,
        Language::German => "Deutsch"@,
        Language::Japanese => "日本語"@,
        Language::Chinese => "中文"@,
        Language::Russian => "Русский"@,
        Language::Portuguese => "Português"@,
    }
}

/// A language's two-letter code.
pub open spec fn language_code(l: Language) -> Seq<char> {
    match l {
        Language::English => "en"@,
        Language::Spanish => "es"@,
        Language::French => "fr"@,
        Language::German => "de"@,
        Language::Japanese => "ja"@,
        Language::Chinese => "zh"@,
        Language::Russian => "ru"@,
        Language::Portuguese => "pt"@,
    }
}

impl Language {
    /// All languages, in the order they are offered.
    pub fn all() -> (r: Vec<Language>)
        ensures
            r@ == all_languages(),
    {
        let mut v: Vec<Language> = Vec::new();
        v.push(Language::English);
        v.push(Language::Spanish);
        v.push(Language::French);
        v.push(Language::German);
        v.push(Language::Japanese);
        v.push(Language::Chinese);
        v.push(Language::Russian);
        v.push(Language::Portuguese);
        proof {
            assert(v@ =~= all_languages());
        }
        v
    }

    /// The language's name in that language.
    pub fn display_name(&self) -> (r: &str)
        ensures
            r@ == language_name(*self),
    {
        match self {
            Language::English => "English",
            Language::Spanish => "Español",
            Language::French => "Français",
            Language::German => "Deutsch",
            Language::Japanese => "日本語",
            Language::Chinese => "中文",
            Language::Russian => "Русский",
            Language::Portuguese => "Português",
        }
    }

    /// The language's two-letter code.
    pub fn code(&self) -> (r: &str)
        ensures
            r@ == language_code(*self),
    {
        match self {
            Language::English => "en",
            Language::Spanish => "es",
            Language::French => "fr",
            Language::German => "de",
            Language::Japanese => "ja",
            Language::Chinese => "zh",
            Language::Russian => "ru",
            Language::Portuguese => "pt",
        }
    }
}

/// Key and text pairs taken as characters.
pub open spec fn pairs(v: Seq<(String, String)>) -> Seq<(Seq<char>, Seq<char>)> {
    v.map_values(|p: (String, String)| (p.0@, p.1@))
}

/// The English strings, by key.
pub open spec fn english_strings() -> Seq<(Seq<char>, Seq<char>)> {
    seq![
        ("app_title"@, "DiskRipper"@),
        ("drives"@, "Drives"@),
        ("jobs"@, "Jobs"@),
        ("settings"@, "Settings"@),
        ("rip"@, "Rip"@),
        ("completed"@, "Completed"@),
        ("failed"@, "Failed"@),
        ("running"@, "Running"@),
        ("no_drives"@, "No optical drives detected"@),
    ]
}

/// The Spanish strings, by key.
pub open spec fn spanish_strings() -> Seq<(Seq<char>, Seq<char>)> {
    seq![
        ("app_title"@, "DiskRipper"@),
        ("drives"@, "Unidades"@),
        ("jobs"@, "Trabajos"@),
        ("settings"@, "Configuración"@),
        ("rip"@, "Extraer"@),
        ("completed"@, "Completado"@),
        ("failed"@, "Fallido"@),
        ("running"@, "Ejecutando"@),
        ("no_drives"@, "No se detectaron unidades"@),
    ]
}

/// The French strings, by key.
pub open spec fn french_strings() -> Seq<(Seq<char>, Seq<char>)> {
    seq![
        ("app_title"@, "DiskRipper"@),
        ("drives"@, "Lecteurs"@),
        ("jobs"@, "Tâches"@),
        ("settings"@, "Paramètres"@),
        ("rip"@, "Extraire"@),
        ("completed"@, "Terminé"@),
        ("failed"@, "Échoué"@),
        ("running"@, "En cours"@),
        ("no_drives"@, "Aucun lecteur optique"@),
    ]
}

/// The English strings.
fn english_table() -> (r: Vec<(String, String)>)
    ensures
        pairs(r@) == english_strings(),
{
    let mut v: Vec<(String, String)> = Vec::new();
    v.push((owned("app_title"), owned("DiskRipper")));
    v.push((owned("drives"), owned("Drives")));
    v.push((owned("jobs"), owned("Jobs")));
    v.push((owned("settings"), owned("Settings")));
    v.push((owned("rip"), owned("Rip")));
    v.push((owned("completed"), owned("Completed")));
    v.push((owned("failed"), owned("Failed")));
    v.push((owned("running"), owned("Running")));
    v.push((owned("no_drives"), owned("No optical drives detected")));
    proof {
        assert(pairs(v@) =~= english_strings());
    }
    v
}

/// The Spanish strings.
fn spanish_table() -> (r: Vec<(String, String)>)
    ensures
        pairs(r@) == spanish_strings(),
{
    let mut v: Vec<(String, String)> = Vec::new();
    v.push((owned("app_title"), owned("DiskRipper")));
    v.push((owned("drives"), owned("Unidades")));
    v.push((owned("jobs"), owned("Trabajos")));
    v.push((owned("settings"), owned("Configuración")));
    v.push((owned("rip"), owned("Extraer")));
    v.push((owned("completed"), owned("Completado")));
    v.push((owned("failed"), owned("Fallido")));
    v.push((owned("running"), owned("Ejecutando")));
    v.push((owned("no_drives"), owned("No se detectaron unidades")));
    proof {
        assert(pairs(v@) =~= spanish_strings());
    }
    v
}

/// The French strings.
fn french_table() -> (r: Vec<(String, String)>)
    ensures
        pairs(r@) == french_strings(),
{
    let mut v: Vec<(String, String)> = Vec::new();
    v.push((owned("app_title"), owned("DiskRipper")));
    v.push((owned("drives"), owned("Lecteurs")));
    v.push((owned("jobs"), owned("Tâches")));
    v.push((owned("settings"), owned("Paramètres")));
    v.push((owned("rip"), owned("Extraire")));
    v.push((owned("completed"), owned("Terminé")));
    v.push((owned("failed"), owned("Échoué")));
    v.push((owned("running"), owned("En cours")));
    v.push((owned("no_drives"), owned("Aucun lecteur optique")));
    proof {
        assert(pairs(v@) =~= french_strings());
    }
    v
}

/// The language whose strings a translator for `l` shows: English, Spanish
/// and French have their own; the others fall back to English.
pub open spec fn served(l: Language) -> Language {
    match l {
        Language::Spanish => Language::Spanish,
        Language::French => Language::French,
        _ => Language::English,
    }
}

/// The strings of a served language.
pub open spec fn strings_of(l: Language) -> Seq<(Seq<char>, Seq<char>)> {
    match l {
        Language::Spanish => spanish_strings(),
        Language::French => french_strings(),
        _ => english_strings(),
    }
}

/// The text of the first entry for `key`, empty where there is none.
pub open spec fn text_for(t: Seq<(Seq<char>, Seq<char>)>, key: Seq<char>) -> Seq<char>
    decreases t.len(),
{
    if t.len() == 0 {
        seq![]
    } else if t[0].0 == key {
        t[0].1
    } else {
        text_for(t.drop_first(), key)
    }
}

/// Strings of the user interface in one language.
pub struct Translator {
    language: Language,
    strings: Vec<(String, String)>,
}

impl Translator {
    /// The language whose strings are shown.
    pub closed spec fn lang(&self) -> Language {
        self.language
    }

    /// The strings, by key.
    pub closed spec fn table(&self) -> Seq<(Seq<char>, Seq<char>)> {
        pairs(self.strings@)
    }

    /// A translator for `language`; languages without their own strings
    /// get the English translator.
    pub fn new(language: Language) -> (r: Self)
        ensures
            r.lang() == served(language),
            r.table() == strings_of(served(language)),
        decreases (if language is English {
            0nat
        } else {
            1nat
        }),
    {
        match language {
            Language::English => Translator { language, strings: english_table() },
            Language::Spanish => Translator { language, strings: spanish_table() },
            Language::French => Translator { language, strings: french_table() },
            _ => Translator::new(Language::English),
        }
    }

    /// The language whose strings are shown.
    pub fn language(&self) -> (r: Language)
        ensures
            r == self.lang(),
    {
        self.language
    }

    /// The text for `key`, empty where there is none.
    pub fn get(&self, key: &str) -> (r: &str)
        ensures
            r@ == text_for(self.table(), key@),
    {
        let mut i: usize = 0;
        proof {
            assert(self.table().subrange(0, self.table().len() as int) =~= self.table());
        }
        while i < self.strings.len()
            invariant
                i <= self.strings@.len(),
                text_for(self.table(), key@) == text_for(
                    self.table().subrange(i as int, self.table().len() as int),
                    key@,
                ),
            decreases self.strings.len() - i,
        {
            proof {
                assert(self.table().subrange(i as int, self.table().len() as int).drop_first()
                    =~= self.table().subrange(i + 1, self.table().len() as int));
            }
            if str_eq(self.strings[i].0.as_str(), key) {
                return self.strings[i].1.as_str();
            }
            i = i + 1;
        }
        proof {
            reveal_strlit("");
            assert(""@ =~= Seq::<char>::empty());
        }
        ""
    }
}

/// The code and name of each language.
pub open spec fn language_entries(ls: Seq<Language>) -> Seq<(Seq<char>, Seq<char>)> {
    ls.map_values(|l: Language| (language_code(l), language_name(l)))
}

/// Code and name of every language, in the order they are offered.
pub fn supported_languages() -> (r: Vec<(String, String)>)
    ensures
        pairs(r@) == language_entries(all_languages()),
{
    let all = Language::all();
    let mut out: Vec<(String, String)> = Vec::new();
    let mut i: usize = 0;
    while i < all.len()
        invariant
            i <= all@.len(),
            all@ == all_languages(),
            pairs(out@) == language_entries(all@.subrange(0, i as int)),
        decreases all.len() - i,
    {
        let l = all[i];
        let ghost before = pairs(out@);
        out.push((owned(l.code()), owned(l.display_name())));
        proof {
            assert(pairs(out@) =~= before.push((language_code(l), language_name(l))));
            assert(language_entries(all@.subrange(0, i + 1)) =~= language_entries(
                all@.subrange(0, i as int),
            ).push((language_code(l), language_name(l))));
        }
        i = i + 1;
    }
    proof {
        assert(all@.subrange(0, i as int) =~= all@);
    }
    out
}

} // verus!
