//! The language of the interface: the system's preferred locale, matched
//! against the translations there are.
use vstd::prelude::*;
use crate::text::{chars_of, index_of, index_of_in, starts_with, starts_with_at};

verus! {

/// The locales there are translations for.
pub open spec fn available_locales() -> Seq<Seq<char>> {
    seq!["en"@, "zh-CN"@]
}

/// The language part of a locale tag: what comes before its first `-`.
pub open spec fn language_code(locale: Seq<char>) -> Seq<char> {
    locale.take(index_of(locale, '-'))
}

/// The locale to use for the system's preferred one: an available locale
/// that is named exactly; else the first available one that begins with
/// the language part; else `zh-CN` for Chinese and `en` for anything else,
/// and where the system names none.
pub open spec fn locale_for(system: Option<Seq<char>>) -> Seq<char> {
    match system {
        None => "en"@,
        Some(l) => if l == "en"@ || l == "zh-CN"@ {
            l
        } else {
            let code = language_code(l);
            if starts_with("en"@, code) {
                "en"@
            } else if starts_with("zh-CN"@, code) {
                "zh-CN"@
            } else if code == "zh"@ {
                "zh-CN"@
            } else {
                "en"@
            }
        },
    }
}

/// `sys_locale::get_locale`: the system's preferred locale, if it names one.
#[verifier::external_body]
fn system_locale() -> (r: Option<String>) {
    sys_locale::get_locale()
}

fn seq_eq(v: &Vec<char>, lo: usize, hi: usize, w: &Vec<char>) -> (b: bool)
    requires
        lo <= hi <= v.len(),
    ensures
        b == (v@.subrange(lo as int, hi as int) == w@),
{
    if hi - lo != w.len() {
        return false;
    }
    let r = starts_with_at(v, lo, hi, w);
    proof {
        let s = v@.subrange(lo as int, hi as int);
        assert(s.subrange(0, w@.len() as int) =~= s);
    }
    r
}

/// The locale to use for the system's preferred locale `system` (see `locale_for`).
pub fn choose_locale(system: Option<&str>) -> (r: String)
    ensures
        r@ == locale_for(match system {
            Some(s) => Some(s@),
            None => None,
        }),
{
    let l = match system {
        None => return String::from_str("en"),
        Some(l) => l,
    };
    let v = chars_of(l);
    let en = chars_of("en");
    let zh_cn = chars_of("zh-CN");
    let zh = chars_of("zh");
    assert(v@.subrange(0, v.len() as int) =~= v@);
    if seq_eq(&v, 0, v.len(), &en) || seq_eq(&v, 0, v.len(), &zh_cn) {
        return String::from_str(l);
    }
    let cut = index_of_in(&v, 0, v.len(), '-');
    let ghost code = language_code(l@);
    assert(v@.subrange(0, cut as int) =~= code);
    let codev = vec_of_range(&v, cut);
    assert(en@.subrange(0, en.len() as int) =~= en@);
    assert(zh_cn@.subrange(0, zh_cn.len() as int) =~= zh_cn@);
    if starts_with_at(&en, 0, en.len(), &codev) {
        String::from_str("en")
    } else if starts_with_at(&zh_cn, 0, zh_cn.len(), &codev) {
        String::from_str("zh-CN")
    } else if seq_eq(&v, 0, cut, &zh) {
        String::from_str("zh-CN")
    } else {
        String::from_str("en")
    }
}

fn vec_of_range(v: &Vec<char>, n: usize) -> (r: Vec<char>)
    requires
        n <= v.len(),
    ensures
        r@ == v@.subrange(0, n as int),
{
    let mut r: Vec<char> = Vec::new();
    let mut i: usize = 0;
    while i < n
        invariant
            i <= n <= v.len(),
            r@ == v@.subrange(0, i as int),
        decreases n - i,
    {
        r.push(v[i]);
        assert(v@.subrange(0, i + 1) =~= v@.subrange(0, i as int).push(v@[i as int]));
        i += 1;
    }
    r
}

/// The locale for the interface: whichever the system prefers, matched
/// against the translations there are; it is always one of them.
pub fn detect_system_locale() -> (r: String)
    ensures
        available_locales().contains(r@),
{
    let system = system_locale();
    let r = match &system {
        Some(s) => choose_locale(Some(s.as_str())),
        None => choose_locale(None),
    };
    proof {
        let av = available_locales();
        assert(av[0] == "en"@);
        assert(av[1] == "zh-CN"@);
    }
    r
}

} // verus!
