use vstd::prelude::*;

use crate::text::{lowercase_of, to_lowercase};

verus! {

/// Position of the first `c` in `s`, or the length of `s` when there is none.
pub open spec fn first_index_of(s: Seq<char>, c: char) -> int
    decreases s.len(),
{
    if s.len() == 0 {
        0
    } else if s[0] == c {
        0
    } else {
        1 + first_index_of(s.drop_first(), c)
    }
}

/// The part of `s` before the first `c`.
pub open spec fn before_char(s: Seq<char>, c: char) -> Seq<char> {
    s.subrange(0, first_index_of(s, c))
}

fn prefix_before(s: &str, c: char) -> (r: &str)
    ensures
        r@ == before_char(s@, c),
{
    let n = s.unicode_len();
    let mut i: usize = 0;
    while i < n && s.get_char(i) != c
        invariant
            n == s@.len(),
            i <= n,
            forall|j: int| 0 <= j < i ==> s@[j] != c,
        decreases n - i,
    {
        i = i + 1;
    }
    proof {
        lemma_first_index_at(s@, c, i as int);
    }
    s.substring_char(0, i)
}

proof fn lemma_first_index_at(s: Seq<char>, c: char, i: int)
    requires
        0 <= i <= s.len(),
        forall|j: int| 0 <= j < i ==> s[j] != c,
        i == s.len() || s[i] == c,
    ensures
        first_index_of(s, c) == i,
    decreases i,
{
    if i > 0 {
        lemma_first_index_at(s.drop_first(), c, i - 1);
    }
}

/// The language named by a locale variable such as `ru_RU.UTF-8`: the part
/// before the first `.`, then before the first `_`, in lower case.
pub open spec fn language_of(value: Seq<char>) -> Seq<char> {
    lowercase_of(before_char(before_char(value, '.'), '_'))
}

/// The language code that a locale variable's value names.
pub fn language_from_locale(value: &str) -> (r: String)
    ensures
        r@ == language_of(value@),
{
    let head = prefix_before(value, '.');
    let lang = prefix_before(head, '_');
    to_lowercase(lang)
}

pub open spec fn listed(available: Seq<String>, s: Seq<char>) -> bool {
    exists|i: int| 0 <= i < available.len() && (#[trigger] available[i])@ == s
}

/// The language to use: the user's choice in lower case when it is
/// available, else the system's language when it is available, else English.
pub open spec fn chosen_locale(user: Seq<char>, system: Seq<char>, available: Seq<String>) -> Seq<
    char,
> {
    if user.len() > 0 && listed(available, lowercase_of(user)) {
        lowercase_of(user)
    } else if listed(available, system) {
        system
    } else {
        seq!['e', 'n']
    }
}

/// Whether `s` is one of the available locales.
pub fn is_available(available: &Vec<String>, s: &str) -> (r: bool)
    ensures
        r == listed(available@, s@),
{
    let target = String::from_str(s);
    let mut i: usize = 0;
    while i < available.len()
        invariant
            i <= available@.len(),
            target@ == s@,
            forall|j: int| 0 <= j < i ==> (#[trigger] available@[j])@ != s@,
        decreases available@.len() - i,
    {
        if available[i] == target {
            return true;
        }
        i = i + 1;
    }
    false
}

/// Picks the interface language from the user's choice, the system's
/// language and the available ones.
pub fn determine_locale(user_lang: &str, system_locale: &str, available_locales: &Vec<String>) -> (r:
    String)
    ensures
        r@ == chosen_locale(user_lang@, system_locale@, available_locales@),
{
    if user_lang.unicode_len() > 0 {
        let user_locale = to_lowercase(user_lang);
        if is_available(available_locales, user_locale.as_str()) {
            return user_locale;
        }
    }
    if is_available(available_locales, system_locale) {
        return String::from_str(system_locale);
    }
    let en = String::from_str("en");
    proof {
        reveal_strlit("en");
        assert(en@ =~= seq!['e', 'n']);
    }
    en
}

} // verus!
