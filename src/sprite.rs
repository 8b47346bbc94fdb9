//! Where a creature's picture is found: a slug made from its name, and the
//! address built from that slug.
use vstd::prelude::*;
use vstd::string::StringExecFns;
use crate::pokedex::{lower_of, lowercase};

verus! {

/// Rewrites `mega-<name>` and `mega-<name>-x` / `mega-<name>-y` into
/// `<name>-mega`, `<name>-mega-x` and `<name>-mega-y`.
pub const MEGA_FORM_PATTERN: &'static str = "^mega-(?P<name>.+?)(?P<xy>-x|-y)?$";

pub const MEGA_FORM_REPLACEMENT: &'static str = "$name-mega$xy";

pub const SPRITE_URL_PREFIX: &'static str = "https://raw.githubusercontent.com/itsjavi/pokemon-assets/master/assets/img/pokemon/";

pub const SPRITE_URL_SUFFIX: &'static str = ".png";

/// `pattern` is a valid regular expression for the `regex` crate.
pub uninterp spec fn regex_compiles(pattern: Seq<char>) -> bool;

/// `text` with the leftmost match of `pattern` replaced by `replacement`,
/// as `regex::Regex::replace` computes it.
pub uninterp spec fn regex_replaced(
    pattern: Seq<char>,
    text: Seq<char>,
    replacement: Seq<char>,
) -> Seq<char>;

/// Relies on `regex::Regex::new`, which compiles `pattern` or reports it
/// invalid, and on `regex::Regex::replace`, which replaces the leftmost match
/// in `text`, expanding `$name` group references in `replacement`.
#[verifier::external_body]
fn replace_first(pattern: &str, text: &str, replacement: &str) -> (r: Option<String>)
    ensures
        r is Some <==> regex_compiles(pattern@),
        r matches Some(t) ==> t@ == regex_replaced(pattern@, text@, replacement@),
{
    match regex::Regex::new(pattern) {
        Ok(re) => Some(re.replace(text, replacement).into_owned()),
        Err(_) => None,
    }
}

/// What one character of a lower-case name becomes in a slug: spaces become
/// dashes, `.`, `:` and `'` are dropped, `é` loses its accent, and the
/// gender signs become `-f` and `-m`.
pub open spec fn slug_piece(c: char) -> Seq<char> {
    if c == ' ' {
        "-"@
    } else if c == '.' || c == ':' || c == '\'' {
        Seq::empty()
    } else if c == '\u{e9}' {
        "e"@
    } else if c == '\u{2640}' {
        "-f"@
    } else if c == '\u{2642}' {
        "-m"@
    } else {
        seq![c]
    }
}

/// The slug pieces of all characters of `s`, in order.
pub open spec fn slug_base_of(s: Seq<char>) -> Seq<char>
    decreases s.len(),
{
    if s.len() == 0 {
        Seq::empty()
    } else {
        slug_base_of(s.drop_last()) + slug_piece(s.last())
    }
}

/// The slug of a name before mega forms are rewritten.
pub open spec fn sprite_slug_of(name: Seq<char>) -> Seq<char> {
    let base = slug_base_of(lower_of(name));
    if regex_compiles(MEGA_FORM_PATTERN@) {
        regex_replaced(MEGA_FORM_PATTERN@, base, MEGA_FORM_REPLACEMENT@)
    } else {
        base
    }
}

/// Replaces each character of an already lower-case name by its slug piece.
pub fn slug_base(s: &str) -> (r: String)
    ensures
        r@ == slug_base_of(s@),
{
    let n = s.unicode_len();
    let mut out = String::new();
    let mut i: usize = 0;
    while i < n
        invariant
            n == s@.len(),
            0 <= i <= n,
            out@ == slug_base_of(s@.subrange(0, i as int)),
        decreases n - i,
    {
        let c = s.get_char(i);
        assert(s@.subrange(0, i + 1).drop_last() == s@.subrange(0, i as int));
        if c == ' ' {
            out.append("-");
        } else if c == '.' || c == ':' || c == '\'' {
        } else if c == '\u{e9}' {
            out.append("e");
        } else if c == '\u{2640}' {
            out.append("-f");
        } else if c == '\u{2642}' {
            out.append("-m");
        } else {
            let piece = s.substring_char(i, i + 1);
            assert(piece@ == seq![c]);
            out.append(piece);
        }
        i = i + 1;
    }
    assert(s@.subrange(0, n as int) == s@);
    out
}

/// The slug under which a creature's picture is stored: the name in lower
/// case, with the characters rewritten by `slug_base`, and a leading `mega-`
/// moved behind the name.
pub fn sprite_name_slug(name: &str) -> (r: String)
    ensures
        r@ == sprite_slug_of(name@),
{
    let lower = lowercase(name);
    let base = slug_base(lower.as_str());
    match replace_first(MEGA_FORM_PATTERN, base.as_str(), MEGA_FORM_REPLACEMENT) {
        Some(slug) => slug,
        None => base,
    }
}

/// The address of a creature's picture.
pub fn sprite_url(name: &str) -> (r: String)
    ensures
        r@ == SPRITE_URL_PREFIX@ + sprite_slug_of(name@) + SPRITE_URL_SUFFIX@,
{
    let slug = sprite_name_slug(name);
    let mut url = String::from_str(SPRITE_URL_PREFIX);
    url.append(slug.as_str());
    url.append(SPRITE_URL_SUFFIX);
    url
}

} // verus!
