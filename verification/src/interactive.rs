//! Asking on the terminal for marked args the user left out: why a prompt produced no answer,
//! and the choices the terminal backends make around their prompts.

use vstd::prelude::*;
use crate::text::str_eq;

verus! {

#[verifier::external_type_specification]
#[verifier::external_body]
pub struct ExIoError(std::io::Error);

/// Why a prompt produced no answer.
pub enum PromptError {
    /// The user backed out.
    Cancelled,
    /// The prompt failed.
    Io(std::io::Error),
    /// There is no terminal to ask on.
    NotATerminal,
}

/// Prompts drawn by cliclack, in its clack style.
#[derive(Clone, Copy, Debug)]
pub struct Cliclack;

impl Default for Cliclack {
    fn default() -> (backend: Self)
        ensures
            backend == Cliclack,
    {
        Cliclack
    }
}

/// Prompts drawn by dialoguer's colorful theme.
#[derive(Clone, Copy, Debug)]
pub struct Dialoguer;

impl Default for Dialoguer {
    fn default() -> (backend: Self)
        ensures
            backend == Dialoguer,
    {
        Dialoguer
    }
}

/// Prompts drawn by inquire.
#[derive(Clone, Copy, Debug)]
pub struct Inquire;

impl Default for Inquire {
    fn default() -> (backend: Self)
        ensures
            backend == Inquire,
    {
        Inquire
    }
}

/// The kinds of I/O error a prompt tells apart.
#[derive(Clone, Copy, PartialEq, Eq, Structural, Debug)]
pub enum IoErrorKind {
    /// `io::ErrorKind::Interrupted`: the user backed out.
    Interrupted,
    /// `io::ErrorKind::NotConnected`: no terminal.
    NotConnected,
    /// Any other kind.
    Other,
}

/// The kind of `err` that `std::io::Error::kind` reports, sorted into the kinds a prompt tells
/// apart.
pub uninterp spec fn io_kind(err: std::io::Error) -> IoErrorKind;

/// `std::io::Error::kind`, sorted into the kinds a prompt tells apart. Trusted: the kind is
/// taken to be that of the same error, named by `io_kind`; which kind a given error has is not
/// stated.
#[verifier::external_body]
fn io_error_kind(err: &std::io::Error) -> (kind: IoErrorKind)
    ensures
        kind == io_kind(*err),
{
    match err.kind() {
        std::io::ErrorKind::Interrupted => IoErrorKind::Interrupted,
        std::io::ErrorKind::NotConnected => IoErrorKind::NotConnected,
        _ => IoErrorKind::Other,
    }
}

/// `std::io::Error::other` with `message`. Trusted without a contract: the error is opaque
/// here.
#[verifier::external_body]
fn io_error_other(message: String) -> std::io::Error {
    std::io::Error::other(message)
}

/// The prompt error for an I/O error `err` of kind `kind`: `Interrupted` is the user backing
/// out, `NotConnected` a missing terminal, any other kind a plain I/O failure.
pub open spec fn classification(kind: IoErrorKind, err: std::io::Error) -> PromptError {
    match kind {
        IoErrorKind::Interrupted => PromptError::Cancelled,
        IoErrorKind::NotConnected => PromptError::NotATerminal,
        IoErrorKind::Other => PromptError::Io(err),
    }
}

impl PromptError {
    /// The prompt error for an I/O error of kind `kind`: `Interrupted` is the user backing out,
    /// `NotConnected` a missing terminal, any other kind a plain I/O failure.
    pub fn classify(kind: IoErrorKind, err: std::io::Error) -> (e: PromptError)
        ensures
            e == classification(kind, err),
    {
        match kind {
            IoErrorKind::Interrupted => PromptError::Cancelled,
            IoErrorKind::NotConnected => PromptError::NotATerminal,
            IoErrorKind::Other => PromptError::Io(err),
        }
    }

    /// The prompt error for a backend's I/O error, classified by its kind.
    pub fn from_io(err: std::io::Error) -> (e: PromptError)
        ensures
            e == classification(io_kind(err), err),
    {
        let kind = io_error_kind(&err);
        PromptError::classify(kind, err)
    }
}

/// How an inquire prompt failed.
pub enum InquireFailure {
    Io(std::io::Error),
    NotTty,
    OperationCanceled,
    OperationInterrupted,
    /// Any other failure, with its message.
    Other(String),
}

/// The prompt error for an inquire failure.
pub fn from_inquire(failure: InquireFailure) -> (e: PromptError)
    ensures
        match failure {
            InquireFailure::Io(err) => e == classification(io_kind(err), err),
            InquireFailure::NotTty => e is NotATerminal,
            InquireFailure::OperationCanceled => e is Cancelled,
            InquireFailure::OperationInterrupted => e is Cancelled,
            InquireFailure::Other(_) => e is Io,
        },
{
    match failure {
        InquireFailure::Io(err) => PromptError::from_io(err),
        InquireFailure::NotTty => PromptError::NotATerminal,
        InquireFailure::OperationCanceled => PromptError::Cancelled,
        InquireFailure::OperationInterrupted => PromptError::Cancelled,
        InquireFailure::Other(message) => PromptError::Io(io_error_other(message)),
    }
}

/// The item a backend adds to an optional select; picking it leaves the arg unset.
pub const NONE_OPTION: &'static str = "(none)";

/// The items a select lists: the options, then `(none)` for an optional prompt.
pub fn select_items(names: &Vec<String>, optional: bool) -> (items: Vec<String>)
    ensures
        items@.map_values(|s: String| s@) == if optional {
            names@.map_values(|s: String| s@).push(NONE_OPTION@)
        } else {
            names@.map_values(|s: String| s@)
        },
{
    let mut items: Vec<String> = Vec::new();
    let mut i: usize = 0;
    while i < names.len()
        invariant
            i <= names@.len(),
            items@.len() == i,
            forall|k: int| 0 <= k < i ==> (#[trigger] items@[k])@ == names@[k]@,
        decreases names@.len() - i,
    {
        items.push(names[i].clone());
        i = i + 1;
    }
    if optional {
        items.push(NONE_OPTION.to_owned());
    }
    assert(items@.map_values(|s: String| s@) =~= if optional {
        names@.map_values(|s: String| s@).push(NONE_OPTION@)
    } else {
        names@.map_values(|s: String| s@)
    });
    items
}

/// Where the cursor starts: the first option named `default`, if any.
pub fn default_index(names: &Vec<String>, default: Option<&str>) -> (index: Option<usize>)
    ensures
        match default {
            None => index is None,
            Some(d) => match index {
                Some(i) => i < names@.len() && names@[i as int]@ == d@
                    && forall|k: int| 0 <= k < i ==> (#[trigger] names@[k])@ != d@,
                None => forall|k: int| 0 <= k < names@.len() ==> (#[trigger] names@[k])@ != d@,
            },
        },
{
    let d = match default {
        Some(d) => d,
        None => return None,
    };
    let mut i: usize = 0;
    while i < names.len()
        invariant
            i <= names@.len(),
            default == Some(d),
            forall|k: int| 0 <= k < i ==> (#[trigger] names@[k])@ != d@,
        decreases names@.len() - i,
    {
        if str_eq(names[i].as_str(), d) {
            return Some(i);
        }
        i = i + 1;
    }
    None
}

/// The option at the picked index; past the options is the `(none)` item, which leaves the arg
/// unset.
pub fn picked_name(names: &Vec<String>, picked: usize) -> (name: Option<String>)
    ensures
        picked < names@.len() ==> name is Some && name->0@ == names@[picked as int]@,
        picked >= names@.len() ==> name is None,
{
    if picked < names.len() {
        Some(names[picked].clone())
    } else {
        None
    }
}

/// A typed answer: an empty one leaves the arg unset.
pub fn non_empty(answer: String) -> (r: Option<String>)
    ensures
        answer@.len() == 0 ==> r is None,
        answer@.len() > 0 ==> r is Some && r->0@ == answer@,
{
    if answer.as_str().is_empty() {
        None
    } else {
        Some(answer)
    }
}

} // verus!
