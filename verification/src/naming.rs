//! The names clap gives subcommand enum variants, recomputed with `clap_derive`'s rules from the
//! keys of the `#[command(...)]` / `#[clap(...)]` attributes.

use vstd::prelude::*;
use heck::{ToKebabCase, ToLowerCamelCase, ToShoutySnakeCase, ToSnakeCase, ToUpperCamelCase};
use crate::text::{remove_char, str_eq, without_char};

verus! {

/// heck's `to_lower_camel_case` of `s`.
pub uninterp spec fn lower_camel_case(s: Seq<char>) -> Seq<char>;

/// heck's `to_kebab_case` of `s`.
pub uninterp spec fn kebab_case(s: Seq<char>) -> Seq<char>;

/// heck's `to_snake_case` of `s`.
pub uninterp spec fn snake_case(s: Seq<char>) -> Seq<char>;

/// heck's `to_upper_camel_case` of `s`.
pub uninterp spec fn upper_camel_case(s: Seq<char>) -> Seq<char>;

/// heck's `to_shouty_snake_case` of `s`.
pub uninterp spec fn shouty_snake_case(s: Seq<char>) -> Seq<char>;

/// std's `str::to_lowercase` of `s`.
pub uninterp spec fn lowercase(s: Seq<char>) -> Seq<char>;

/// `heck::ToLowerCamelCase::to_lower_camel_case`. Trusted: the result is heck's function of the
/// characters of `s`, named by `lower_camel_case`; heck's word-splitting rules are not stated.
#[verifier::external_body]
fn to_lower_camel(s: &str) -> (r: String)
    ensures
        r@ == lower_camel_case(s@),
{
    s.to_lower_camel_case()
}

/// `heck::ToKebabCase::to_kebab_case`. Trusted: the result is heck's function of the characters
/// of `s`, named by `kebab_case`; heck's word-splitting rules are not stated.
#[verifier::external_body]
fn to_kebab(s: &str) -> (r: String)
    ensures
        r@ == kebab_case(s@),
{
    s.to_kebab_case()
}

/// `heck::ToSnakeCase::to_snake_case`. Trusted: the result is heck's function of the characters
/// of `s`, named by `snake_case`; heck's word-splitting rules are not stated.
#[verifier::external_body]
fn to_snake(s: &str) -> (r: String)
    ensures
        r@ == snake_case(s@),
{
    s.to_snake_case()
}

/// `heck::ToUpperCamelCase::to_upper_camel_case`. Trusted: the result is heck's function of the
/// characters of `s`, named by `upper_camel_case`; heck's word-splitting rules are not stated.
#[verifier::external_body]
fn to_upper_camel(s: &str) -> (r: String)
    ensures
        r@ == upper_camel_case(s@),
{
    s.to_upper_camel_case()
}

/// `heck::ToShoutySnakeCase::to_shouty_snake_case`. Trusted: the result is heck's function of
/// the characters of `s`, named by `shouty_snake_case`; heck's word-splitting rules are not
/// stated.
#[verifier::external_body]
fn to_shouty_snake(s: &str) -> (r: String)
    ensures
        r@ == shouty_snake_case(s@),
{
    s.to_shouty_snake_case()
}

/// std's `str::to_lowercase`. Trusted: the result is std's function of the characters of `s`,
/// named by `lowercase`; Unicode's lowercase mapping is not stated.
#[verifier::external_body]
fn to_lowercase(s: &str) -> (r: String)
    ensures
        r@ == lowercase(s@),
{
    s.to_lowercase()
}

/// A `rename_all` casing, mirroring `clap_derive`'s. The examples rename `DryRun`.
#[derive(Clone, Copy, PartialEq, Eq, Structural, Debug)]
pub enum CasingStyle {
    /// `dryRun`.
    Camel,
    /// `dry-run`, clap's default for subcommands.
    Kebab,
    /// `dryrun`.
    Lower,
    /// `DryRun`.
    Pascal,
    /// `DRY_RUN`.
    ScreamingSnake,
    /// `dry_run`.
    Snake,
    /// `DRYRUN`.
    Upper,
    /// `DryRun`, as written.
    Verbatim,
}

/// The casing a normalized `rename_all` value names, `None` for a value clap rejects.
pub open spec fn casing_named(n: Seq<char>) -> Option<CasingStyle> {
    if n == "camel"@ || n == "camelcase"@ {
        Some(CasingStyle::Camel)
    } else if n == "kebab"@ || n == "kebabcase"@ {
        Some(CasingStyle::Kebab)
    } else if n == "pascal"@ || n == "pascalcase"@ {
        Some(CasingStyle::Pascal)
    } else if n == "screamingsnake"@ || n == "screamingsnakecase"@ {
        Some(CasingStyle::ScreamingSnake)
    } else if n == "snake"@ || n == "snakecase"@ {
        Some(CasingStyle::Snake)
    } else if n == "lower"@ || n == "lowercase"@ {
        Some(CasingStyle::Lower)
    } else if n == "upper"@ || n == "uppercase"@ {
        Some(CasingStyle::Upper)
    } else if n == "verbatim"@ || n == "verbatimcase"@ {
        Some(CasingStyle::Verbatim)
    } else {
        None
    }
}

/// The casing a `rename_all` value asks for, read the way clap reads it: case and separators
/// are ignored.
pub open spec fn casing_of_value(value: Seq<char>) -> Option<CasingStyle> {
    casing_named(lowercase(upper_camel_case(value)))
}

impl CasingStyle {
    /// `ident` renamed in this casing.
    pub open spec fn spec_apply(self, ident: Seq<char>) -> Seq<char> {
        match self {
            CasingStyle::Camel => lower_camel_case(ident),
            CasingStyle::Kebab => kebab_case(ident),
            CasingStyle::Lower => without_char(snake_case(ident), '_'),
            CasingStyle::Pascal => upper_camel_case(ident),
            CasingStyle::ScreamingSnake => shouty_snake_case(ident),
            CasingStyle::Snake => snake_case(ident),
            CasingStyle::Upper => without_char(shouty_snake_case(ident), '_'),
            CasingStyle::Verbatim => ident,
        }
    }

    /// `ident` renamed in this casing.
    pub fn apply(self, ident: &str) -> (renamed: String)
        ensures
            renamed@ == self.spec_apply(ident@),
    {
        match self {
            CasingStyle::Camel => to_lower_camel(ident),
            CasingStyle::Kebab => to_kebab(ident),
            CasingStyle::Lower => {
                let snake = to_snake(ident);
                remove_char(snake.as_str(), '_')
            },
            CasingStyle::Pascal => to_upper_camel(ident),
            CasingStyle::ScreamingSnake => to_shouty_snake(ident),
            CasingStyle::Snake => to_snake(ident),
            CasingStyle::Upper => {
                let shouty = to_shouty_snake(ident);
                remove_char(shouty.as_str(), '_')
            },
            CasingStyle::Verbatim => ident.to_owned(),
        }
    }

    /// The casing a normalized `rename_all` value (lowercase, without separators) names, `None`
    /// for a value clap rejects.
    pub fn named(n: &str) -> (casing: Option<CasingStyle>)
        ensures
            casing == casing_named(n@),
    {
        if str_eq(n, "camel") || str_eq(n, "camelcase") {
            Some(CasingStyle::Camel)
        } else if str_eq(n, "kebab") || str_eq(n, "kebabcase") {
            Some(CasingStyle::Kebab)
        } else if str_eq(n, "pascal") || str_eq(n, "pascalcase") {
            Some(CasingStyle::Pascal)
        } else if str_eq(n, "screamingsnake") || str_eq(n, "screamingsnakecase") {
            Some(CasingStyle::ScreamingSnake)
        } else if str_eq(n, "snake") || str_eq(n, "snakecase") {
            Some(CasingStyle::Snake)
        } else if str_eq(n, "lower") || str_eq(n, "lowercase") {
            Some(CasingStyle::Lower)
        } else if str_eq(n, "upper") || str_eq(n, "uppercase") {
            Some(CasingStyle::Upper)
        } else if str_eq(n, "verbatim") || str_eq(n, "verbatimcase") {
            Some(CasingStyle::Verbatim)
        } else {
            None
        }
    }

    /// Parse a `rename_all` value the way clap does, ignoring case and separators:
    /// `"kebab-case"`, `"KebabCase"` and `"kebab"` are all kebab. `None` for a value clap rejects.
    pub fn from_lit(value: &str) -> (casing: Option<CasingStyle>)
        ensures
            casing == casing_of_value(value@),
    {
        let camel = to_upper_camel(value);
        let normalized = to_lowercase(camel.as_str());
        CasingStyle::named(normalized.as_str())
    }
}

} // verus!

verus! {

/// What follows a key inside `#[command(...)]`.
pub enum KeyValue {
    /// A bare key, like `subcommand`.
    Bare,
    /// `key = "..."`.
    Str(String),
    /// `key = EXPR` with any other expression.
    Other,
    /// `key(...)`.
    List,
}

/// One key of a `#[command(...)]` / `#[clap(...)]` attribute.
pub struct ClapKey {
    pub path: String,
    pub value: KeyValue,
}

/// The keys of one `#[command(...)]` / `#[clap(...)]` / `#[couture(...)]` attribute, in
/// order. A walk over the attribute that reaches a malformed value ends there, so the keys stop
/// after it.
pub struct ClapAttr {
    pub keys: Vec<ClapKey>,
    /// The walk ended at a syntax error after the last key: something other than a `,` or the
    /// end of the attribute follows it.
    pub ends_in_error: bool,
}

/// The `ls` of the first `key = "ls"` in `keys`; `None` when there is none or when the first
/// `key` is not a string literal (a malformed value ends the walk of the attribute).
pub open spec fn keys_str(keys: Seq<ClapKey>, key: Seq<char>) -> Option<Seq<char>>
    decreases keys.len(),
{
    if keys.len() == 0 {
        None
    } else if keys[0].path@ == key {
        match keys[0].value {
            KeyValue::Str(s) => Some(s@),
            _ => None,
        }
    } else {
        keys_str(keys.drop_first(), key)
    }
}

/// The first string any of `attrs` gives `key`.
pub open spec fn attrs_str(attrs: Seq<ClapAttr>, key: Seq<char>) -> Option<Seq<char>>
    decreases attrs.len(),
{
    if attrs.len() == 0 {
        None
    } else {
        match keys_str(attrs[0].keys@, key) {
            Some(n) => Some(n),
            None => attrs_str(attrs.drop_first(), key),
        }
    }
}

/// The first name any of `attrs` gives.
pub open spec fn attrs_name(attrs: Seq<ClapAttr>) -> Option<Seq<char>> {
    attrs_str(attrs, "name"@)
}

/// The casing after walking `keys` from `acc`: each `rename_all` clap accepts replaces it, one
/// it rejects leaves it, and one that is not a string literal ends the walk.
pub open spec fn keys_casing(keys: Seq<ClapKey>, acc: Option<CasingStyle>) -> Option<CasingStyle>
    decreases keys.len(),
{
    if keys.len() == 0 {
        acc
    } else if keys[0].path@ == "rename_all"@ {
        match keys[0].value {
            KeyValue::Str(s) => keys_casing(
                keys.drop_first(),
                match casing_of_value(s@) {
                    Some(c) => Some(c),
                    None => acc,
                },
            ),
            _ => acc,
        }
    } else {
        keys_casing(keys.drop_first(), acc)
    }
}

/// The casing after walking each of `attrs` in turn from `acc`.
pub open spec fn attrs_casing(attrs: Seq<ClapAttr>, acc: Option<CasingStyle>) -> Option<CasingStyle>
    decreases attrs.len(),
{
    if attrs.len() == 0 {
        acc
    } else {
        attrs_casing(attrs.drop_first(), keys_casing(attrs[0].keys@, acc))
    }
}

/// Whether some attribute of `attrs` holds the key `key`.
pub open spec fn attrs_have_key(attrs: Seq<ClapAttr>, key: Seq<char>) -> bool {
    exists|i: int, j: int| 0 <= i < attrs.len() && 0 <= j < attrs[i].keys@.len()
        && (#[trigger] attrs[i].keys@[j]).path@ == key
}

fn key_str(keys: &Vec<ClapKey>, key: &str) -> (name: Option<String>)
    ensures
        match keys_str(keys@, key@) {
            Some(n) => name is Some && name->0@ == n,
            None => name is None,
        },
{
    assert(keys@.subrange(0, keys@.len() as int) =~= keys@);
    let mut i: usize = 0;
    while i < keys.len()
        invariant
            i <= keys@.len(),
            keys_str(keys@, key@) == keys_str(keys@.subrange(i as int, keys@.len() as int), key@),
        decreases keys@.len() - i,
    {
        let ghost rest = keys@.subrange(i as int, keys@.len() as int);
        assert(rest.drop_first() =~= keys@.subrange(i + 1, keys@.len() as int));
        if str_eq(keys[i].path.as_str(), key) {
            match &keys[i].value {
                KeyValue::Str(s) => return Some(s.clone()),
                _ => return None,
            }
        }
        i = i + 1;
    }
    None
}

/// The string the first `key = "..."` of `attrs` gives, if any.
pub fn first_str(attrs: &Vec<ClapAttr>, key: &str) -> (value: Option<String>)
    ensures
        match attrs_str(attrs@, key@) {
            Some(n) => value is Some && value->0@ == n,
            None => value is None,
        },
{
    assert(attrs@.subrange(0, attrs@.len() as int) =~= attrs@);
    let mut i: usize = 0;
    while i < attrs.len()
        invariant
            i <= attrs@.len(),
            attrs_str(attrs@, key@) == attrs_str(attrs@.subrange(i as int, attrs@.len() as int), key@),
        decreases attrs@.len() - i,
    {
        let ghost rest = attrs@.subrange(i as int, attrs@.len() as int);
        assert(rest.drop_first() =~= attrs@.subrange(i + 1, attrs@.len() as int));
        let found = key_str(&attrs[i].keys, key);
        if found.is_some() {
            return found;
        }
        i = i + 1;
    }
    None
}

/// The `ls` in the first `#[command(name = "ls")]` of `attrs`, if any.
pub fn clap_name(attrs: &Vec<ClapAttr>) -> (name: Option<String>)
    ensures
        match attrs_name(attrs@) {
            Some(n) => name is Some && name->0@ == n,
            None => name is None,
        },
{
    first_str(attrs, "name")
}

fn key_casing(keys: &Vec<ClapKey>, acc: Option<CasingStyle>) -> (casing: Option<CasingStyle>)
    ensures
        casing == keys_casing(keys@, acc),
{
    let mut casing = acc;
    assert(keys@.subrange(0, keys@.len() as int) =~= keys@);
    let mut i: usize = 0;
    while i < keys.len()
        invariant
            i <= keys@.len(),
            keys_casing(keys@, acc) == keys_casing(keys@.subrange(i as int, keys@.len() as int), casing),
        decreases keys@.len() - i,
    {
        let ghost rest = keys@.subrange(i as int, keys@.len() as int);
        assert(rest.drop_first() =~= keys@.subrange(i + 1, keys@.len() as int));
        if str_eq(keys[i].path.as_str(), "rename_all") {
            match &keys[i].value {
                KeyValue::Str(s) => {
                    match CasingStyle::from_lit(s.as_str()) {
                        Some(c) => casing = Some(c),
                        None => {},
                    }
                },
                _ => return casing,
            }
        }
        i = i + 1;
    }
    assert(keys@.subrange(i as int, keys@.len() as int) =~= Seq::<ClapKey>::empty());
    casing
}

/// The casing `attrs`' `#[command(rename_all = "...")]` asks for: the last one clap accepts.
pub fn casing_from_attrs(attrs: &Vec<ClapAttr>) -> (casing: Option<CasingStyle>)
    ensures
        casing == attrs_casing(attrs@, None),
{
    let mut casing: Option<CasingStyle> = None;
    assert(attrs@.subrange(0, attrs@.len() as int) =~= attrs@);
    let mut i: usize = 0;
    while i < attrs.len()
        invariant
            i <= attrs@.len(),
            attrs_casing(attrs@, None) == attrs_casing(attrs@.subrange(i as int, attrs@.len() as int), casing),
        decreases attrs@.len() - i,
    {
        let ghost rest = attrs@.subrange(i as int, attrs@.len() as int);
        assert(rest.drop_first() =~= attrs@.subrange(i + 1, attrs@.len() as int));
        casing = key_casing(&attrs[i].keys, casing);
        i = i + 1;
    }
    assert(attrs@.subrange(i as int, attrs@.len() as int) =~= Seq::<ClapAttr>::empty());
    casing
}

/// Whether some `#[command(...)]` / `#[clap(...)]` of `attrs` holds the key `key`.
pub fn has_clap_key(attrs: &Vec<ClapAttr>, key: &str) -> (found: bool)
    ensures
        found == attrs_have_key(attrs@, key@),
{
    let mut i: usize = 0;
    while i < attrs.len()
        invariant
            i <= attrs@.len(),
            forall|a: int, b: int| 0 <= a < i && 0 <= b < attrs@[a].keys@.len() ==>
                (#[trigger] attrs@[a].keys@[b]).path@ != key@,
        decreases attrs@.len() - i,
    {
        let keys = &attrs[i].keys;
        let mut j: usize = 0;
        while j < keys.len()
            invariant
                i < attrs@.len(),
                keys == &attrs@[i as int].keys,
                j <= keys@.len(),
                forall|b: int| 0 <= b < j ==> (#[trigger] keys@[b]).path@ != key@,
            decreases keys@.len() - j,
        {
            if str_eq(keys[j].path.as_str(), key) {
                return true;
            }
            j = j + 1;
        }
        i = i + 1;
    }
    false
}

/// Whether `attrs` mark the field as clap's subcommand: `#[command(subcommand)]`.
pub fn is_clap_subcommand(attrs: &Vec<ClapAttr>) -> (found: bool)
    ensures
        found == attrs_have_key(attrs@, "subcommand"@),
{
    has_clap_key(attrs, "subcommand")
}

/// The rule clap names one subcommand enum's variants by: the enum's `rename_all` casing,
/// unless a variant sets its own.
pub struct SubcommandNaming {
    pub casing: CasingStyle,
}

/// The name clap gives a variant with attributes `attrs` and (unraw) ident `ident` under the
/// enum casing `casing`.
pub open spec fn variant_name(casing: CasingStyle, attrs: Seq<ClapAttr>, ident: Seq<char>) -> Seq<char> {
    match attrs_name(attrs) {
        Some(n) => n,
        None => match attrs_casing(attrs, None) {
            Some(c) => c.spec_apply(ident),
            None => casing.spec_apply(ident),
        },
    }
}

impl SubcommandNaming {
    /// Read the enum's `#[command(rename_all = "...")]`, defaulting to kebab-case.
    pub fn from_container(attrs: &Vec<ClapAttr>) -> (naming: Self)
        ensures
            naming.casing == match attrs_casing(attrs@, None) {
                Some(c) => c,
                None => CasingStyle::Kebab,
            },
    {
        let casing = match casing_from_attrs(attrs) {
            Some(c) => c,
            None => CasingStyle::Kebab,
        };
        SubcommandNaming { casing }
    }

    /// The name clap gives a variant: `ls` for `#[command(name = "ls")] List`, otherwise the
    /// variant's or the enum's casing applied to `ident`, the variant's ident without `r#`.
    pub fn name_of(&self, attrs: &Vec<ClapAttr>, ident: &str) -> (name: String)
        ensures
            name@ == variant_name(self.casing, attrs@, ident@),
    {
        match clap_name(attrs) {
            Some(n) => n,
            None => {
                let casing = match casing_from_attrs(attrs) {
                    Some(c) => c,
                    None => self.casing,
                };
                casing.apply(ident)
            },
        }
    }
}

} // verus!
