//! The naming rule behind the stable names of events and commands: every
//! variant is named `prefix + name`, where `name` is the variant's explicit
//! rename if it has one, and otherwise its own name, rewritten by the
//! container's rename rule.

use vstd::prelude::*;

use crate::text::concat;

verus! {

/// How variant names are rewritten when no explicit rename is given.
#[derive(Debug, Clone, Copy, PartialEq, Eq, Structural)]
pub enum RenameRule {
    /// Keep the variant's own name.
    Verbatim,
    /// `PascalCase` to `snake_case`: every upper-case ASCII letter is made
    /// lower-case, and preceded by `_` unless it starts the name.
    SnakeCase,
}

/// Whether `c` is an upper-case ASCII letter.
pub open spec fn is_upper(c: char) -> bool {
    'A' <= c <= 'Z'
}

/// The lower-case form of the upper-case ASCII letter `c`.
pub open spec fn lower(c: char) -> char {
    ((c as int) + 32) as char
}

/// `name` in `snake_case`.
pub open spec fn snake_case(name: Seq<char>) -> Seq<char>
    decreases name.len(),
{
    if name.len() == 0 {
        Seq::empty()
    } else {
        let before = snake_case(name.drop_last());
        let c = name.last();
        if is_upper(c) {
            if name.len() == 1 {
                before.push(lower(c))
            } else {
                before.push('_').push(lower(c))
            }
        } else {
            before.push(c)
        }
    }
}

/// The stable name of a variant called `variant` under `prefix` and the
/// container's `rule`, honouring an optional explicit `rename`.
pub open spec fn spec_stable_name(
    prefix: Seq<char>,
    variant: Seq<char>,
    rule: RenameRule,
    rename: Option<Seq<char>>,
) -> Seq<char> {
    prefix + match rename {
        Some(r) => r,
        None => match rule {
            RenameRule::Verbatim => variant,
            RenameRule::SnakeCase => snake_case(variant),
        },
    }
}

/// Appends `c` to `s`.
///
/// Trusted: calls `String::push`, which appends one character.
#[verifier::external_body]
fn push_char(s: &mut String, c: char)
    ensures
        final(s)@ == old(s)@.push(c),
{
    s.push(c);
}

/// `name` in `snake_case`.
pub fn to_snake_case(name: &str) -> (r: String)
    ensures
        r@ == snake_case(name@),
{
    let n = name.unicode_len();
    let mut out = String::new();
    let mut i: usize = 0;
    while i < n
        invariant
            n == name@.len(),
            i <= n,
            out@ == snake_case(name@.take(i as int)),
        decreases n - i,
    {
        let c = name.get_char(i);
        proof {
            assert(name@.take(i + 1).drop_last() =~= name@.take(i as int));
            assert(name@.take(i + 1).last() == c);
        }
        if 'A' <= c && c <= 'Z' {
            if i > 0 {
                push_char(&mut out, '_');
            }
            let code = c as u32 + 32;
            let low = (code as u8) as char;
            proof {
                assert(code as u8 == code);
                assert(low == lower(c));
            }
            push_char(&mut out, low);
        } else {
            push_char(&mut out, c);
        }
        i += 1;
    }
    proof {
        assert(name@.take(n as int) =~= name@);
    }
    out
}

/// The stable name of a variant called `variant` under `prefix` and the
/// container's `rule`, honouring an optional explicit `rename`.
pub fn stable_name(prefix: &str, variant: &str, rule: RenameRule, rename: Option<&str>) -> (name:
    String)
    ensures
        name@ == spec_stable_name(
            prefix@,
            variant@,
            rule,
            match rename {
                Some(r) => Some(r@),
                None => None,
            },
        ),
{
    match rename {
        Some(r) => concat(prefix, r),
        None => match rule {
            RenameRule::Verbatim => concat(prefix, variant),
            RenameRule::SnakeCase => {
                let snake = to_snake_case(variant);
                concat(prefix, snake.as_str())
            },
        },
    }
}

/// The stable names of every variant, in declaration order: each variant is
/// given by its name and optional explicit rename.
pub fn stable_names(prefix: &str, rule: RenameRule, variants: &[(String, Option<String>)]) -> (names:
    Vec<String>)
    ensures
        names@.len() == variants@.len(),
        forall|k: int|
            0 <= k < variants@.len() ==> (#[trigger] names@[k])@ == spec_stable_name(
                prefix@,
                variants@[k].0@,
                rule,
                match variants@[k].1 {
                    Some(r) => Some(r@),
                    None => None,
                },
            ),
{
    let mut names: Vec<String> = Vec::new();
    let mut i: usize = 0;
    while i < variants.len()
        invariant
            i <= variants@.len(),
            names@.len() == i,
            forall|k: int|
                0 <= k < i ==> (#[trigger] names@[k])@ == spec_stable_name(
                    prefix@,
                    variants@[k].0@,
                    rule,
                    match variants@[k].1 {
                        Some(r) => Some(r@),
                        None => None,
                    },
                ),
        decreases variants@.len() - i,
    {
        let (variant, rename) = &variants[i];
        let name = match rename {
            Some(r) => stable_name(prefix, variant.as_str(), rule, Some(r.as_str())),
            None => stable_name(prefix, variant.as_str(), rule, None),
        };
        names.push(name);
        i += 1;
    }
    names
}

/// An explicit rename is used as written, under every rename rule: the
/// name is the prefix followed by the rename, whatever the variant is
/// called. The rule applies only to variants without a rename, and an
/// unrenamed variant under `Verbatim` keeps its own name.
pub proof fn law_rename_wins_over_the_rule(
    prefix: Seq<char>,
    variant: Seq<char>,
    other_variant: Seq<char>,
    rename: Seq<char>,
)
    ensures
        spec_stable_name(prefix, variant, RenameRule::Verbatim, Some(rename)) == prefix + rename,
        spec_stable_name(prefix, variant, RenameRule::SnakeCase, Some(rename)) == prefix + rename,
        spec_stable_name(prefix, variant, RenameRule::SnakeCase, Some(rename)) == spec_stable_name(
            prefix,
            other_variant,
            RenameRule::Verbatim,
            Some(rename),
        ),
        spec_stable_name(prefix, variant, RenameRule::Verbatim, None) == prefix + variant,
{
}

/// Snake-casing leaves no upper-case letter, and leaves a name that has no
/// upper-case letter unchanged.
pub proof fn law_snake_case_lowers(name: Seq<char>)
    ensures
        forall|i: int| 0 <= i < snake_case(name).len() ==> !is_upper(#[trigger] snake_case(name)[i]),
        (forall|i: int| 0 <= i < name.len() ==> !is_upper(#[trigger] name[i])) ==> snake_case(name)
            == name,
    decreases name.len(),
{
    if name.len() > 0 {
        law_snake_case_lowers(name.drop_last());
        let before = snake_case(name.drop_last());
        let c = name.last();
        assert(is_upper(c) ==> !is_upper(lower(c)));
        if forall|i: int| 0 <= i < name.len() ==> !is_upper(#[trigger] name[i]) {
            assert forall|i: int| 0 <= i < name.drop_last().len() implies !is_upper(
                #[trigger] name.drop_last()[i],
            ) by {
                assert(name.drop_last()[i] == name[i]);
            }
            assert(!is_upper(name[name.len() - 1]));
            assert(name.drop_last().push(c) =~= name);
        }
    }
}

} // verus!
