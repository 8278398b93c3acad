//! Display language and the choice between the English and the Japanese text.
use crate::text::{chars_of, eq_chars, lower, lower_chars};
use vstd::prelude::*;

verus! {

/// Display language. Stored in the settings file in lower case (`en` / `ja`).
#[derive(Debug, Clone, Copy, PartialEq, Eq, Structural)]
pub enum Lang {
    En,
    Ja,
}

impl Default for Lang {
    fn default() -> (l: Self)
        ensures
            l == Lang::En,
    {
        Lang::En
    }
}

/// The language that `s` names, ignoring case: `en` or `english` for
/// English, `ja`, `jp` or `japanese` for Japanese.
///
/// Only ASCII letters change under this case folding. No other character
/// lowercases to a letter of these names, so it decides exactly as full
/// Unicode lowercasing would.
pub open spec fn lang_named(s: Seq<char>) -> Option<Lang> {
    let l = lower(s);
    if l == seq!['e', 'n'] || l == seq!['e', 'n', 'g', 'l', 'i', 's', 'h'] {
        Some(Lang::En)
    } else if l == seq!['j', 'a'] || l == seq!['j', 'p'] || l == seq![
        'j',
        'a',
        'p',
        'a',
        'n',
        'e',
        's',
        'e',
    ] {
        Some(Lang::Ja)
    } else {
        None
    }
}

impl Lang {
    /// Parses a language name, ignoring case.
    pub fn parse(s: &str) -> (r: Option<Self>)
        ensures
            r == lang_named(s@),
    {
        let v = lower_chars(&chars_of(s));
        if eq_chars(&v, &vec!['e', 'n']) || eq_chars(&v, &vec!['e', 'n', 'g', 'l', 'i', 's', 'h']) {
            Some(Lang::En)
        } else if eq_chars(&v, &vec!['j', 'a']) || eq_chars(&v, &vec!['j', 'p']) || eq_chars(
            &v,
            &vec!['j', 'a', 'p', 'a', 'n', 'e', 's', 'e'],
        ) {
            Some(Lang::Ja)
        } else {
            None
        }
    }
}

/// The language setting of a process: set once, read many times.
pub struct LangSlot {
    chosen: Option<Lang>,
}

impl View for LangSlot {
    type V = Option<Lang>;

    closed spec fn view(&self) -> Option<Lang> {
        self.chosen
    }
}

impl LangSlot {
    /// A slot that no language has been set in yet.
    pub fn new() -> (s: Self)
        ensures
            s@ is None,
    {
        LangSlot { chosen: None }
    }
}

/// The slot after `init` with `lang`: only the first language set counts.
pub open spec fn after_init(slot: Option<Lang>, lang: Lang) -> Option<Lang> {
    match slot {
        Some(l) => Some(l),
        None => Some(lang),
    }
}

/// The language a slot gives: the one set, English when none was.
pub open spec fn current_of(slot: Option<Lang>) -> Lang {
    match slot {
        Some(l) => l,
        None => Lang::En,
    }
}

/// Sets the language of the slot, unless one was set before.
pub fn init(slot: &mut LangSlot, lang: Lang)
    ensures
        final(slot)@ == after_init(old(slot)@, lang),
{
    if slot.chosen.is_none() {
        slot.chosen = Some(lang);
    }
}

/// The language in use.
pub fn current(slot: &LangSlot) -> (l: Lang)
    ensures
        l == current_of(slot@),
{
    match slot.chosen {
        Some(l) => l,
        None => Lang::En,
    }
}

/// Picks the English or the Japanese text.
pub fn tr<T>(lang: Lang, en: T, ja: T) -> (r: T)
    ensures
        r == (match lang {
            Lang::En => en,
            Lang::Ja => ja,
        }),
{
    match lang {
        Lang::En => en,
        Lang::Ja => ja,
    }
}

/// Only the first language set takes effect: a second `init` changes nothing.
pub proof fn lemma_first_init_wins(slot: Option<Lang>, first: Lang, second: Lang)
    ensures
        after_init(after_init(slot, first), second) == after_init(slot, first),
        slot is None ==> current_of(after_init(after_init(slot, first), second)) == first,
{
}

/// A language is read as set; before any is set it is English.
pub proof fn lemma_current_after_init(lang: Lang)
    ensures
        current_of(None) == Lang::En,
        current_of(after_init(None, lang)) == lang,
{
}

/// Names are read regardless of case: a name and its lower-case form name the
/// same language.
pub proof fn lemma_parse_ignores_case(s: Seq<char>)
    ensures
        lang_named(s) == lang_named(lower(s)),
{
    assert(lower(lower(s)) =~= lower(s));
}

} // verus!
