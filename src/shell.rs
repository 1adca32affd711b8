use vstd::prelude::*;
use crate::path::PathError;

verus! {

/// The text holds a `$`, which may start a variable reference.
pub open spec fn has_dollar(s: Seq<char>) -> bool {
    exists|i: int| 0 <= i < s.len() && s[i] == '$'
}

/// The text starts with `~`, which may stand for the home directory.
pub open spec fn starts_with_tilde(s: Seq<char>) -> bool {
    s.len() > 0 && s[0] == '~'
}

/// Relies on `shellexpand::full`, which expands variables and then a
/// leading `~`. Text without `$` takes no variable lookup and cannot fail;
/// text without `$` and without a leading `~` comes back unchanged. A
/// failed lookup gives `None`.
#[verifier::external_body]
fn expand_variables(s: &str) -> (r: Option<String>)
    ensures
        !has_dollar(s@) ==> r is Some,
        !has_dollar(s@) && !starts_with_tilde(s@) ==> r is Some && r->Some_0@ == s@,
{
    match shellexpand::full(s) {
        Ok(expanded) => Some(expanded.into_owned()),
        Err(_) => None,
    }
}

/// Relies on `shellexpand::tilde`: text that does not start with `~` comes
/// back unchanged.
#[verifier::external_body]
fn expand_home(s: &str) -> (r: String)
    ensures
        !starts_with_tilde(s@) ==> r@ == s@,
{
    shellexpand::tilde(s).into_owned()
}

/// Expands environment variables and a leading home-directory `~` in a
/// path given as text. Fails with `InvalidPath` when a variable cannot be
/// looked up. Text with neither `$` nor a leading `~` is kept as it is.
pub fn shell_expend_full(path: &str) -> (r: Result<String, PathError>)
    ensures
        !has_dollar(path@) ==> r is Ok,
        !has_dollar(path@) && !starts_with_tilde(path@) ==> r is Ok && r->Ok_0@ == path@,
        r is Err ==> r == Err::<String, PathError>(PathError::InvalidPath),
{
    match expand_variables(path) {
        Some(expanded) => Ok(expand_home(expanded.as_str())),
        None => Err(PathError::InvalidPath),
    }
}

} // verus!
