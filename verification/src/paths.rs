//! The world directory named in the configuration.

use vstd::prelude::*;
use std::path::{Component, Path, PathBuf};
use crate::text::{chars_of, push_str};

verus! {

/// The text a path wraps.
pub uninterp spec fn path_text(p: &Path) -> Seq<char>;

/// The names of a path's components, in order, as `Path::components`
/// gives them.
pub uninterp spec fn path_parts(p: &Path) -> Seq<Seq<char>>;

/// The names of the components of the path a `PathBuf` holds.
pub uninterp spec fn path_buf_parts(p: &PathBuf) -> Seq<Seq<char>>;

/// The path of a name, borrowed from it.
///
/// Calls `Path::new`, which wraps the string as a path directly: the
/// path's text is the name.
#[verifier::external_body]
fn path_new(name: &str) -> (r: &Path)
    ensures
        path_text(r) == name@,
{
    Path::new(name)
}

/// What `Debug` formatting writes for a string: the string in double
/// quotes, with quotes, backslashes and control characters escaped.
pub uninterp spec fn debug_quoted(s: Seq<char>) -> Seq<char>;

/// Whether an I/O error's kind is `InvalidInput`.
pub uninterp spec fn io_error_is_invalid_input(e: std::io::Error) -> bool;

/// The message an I/O error displays.
pub uninterp spec fn io_error_message(e: std::io::Error) -> Seq<char>;

/// `format!("{:?}", s)`: the string as `Debug` writes it.
#[verifier::external_body]
fn debug_text(s: &str) -> (r: String)
    ensures
        r@ == debug_quoted(s@),
{
    format!("{:?}", s)
}

/// `std::io::Error::new` with `ErrorKind::InvalidInput` and `message`: an
/// error of that kind that displays the message.
#[verifier::external_body]
fn invalid_input_error(message: String) -> (r: std::io::Error)
    ensures
        io_error_is_invalid_input(r),
        io_error_message(r) == message@,
{
    std::io::Error::new(std::io::ErrorKind::InvalidInput, message)
}

/// A name that is one normal path component on every platform: plain
/// characters and dots, and neither "." nor "..".
pub open spec fn single_component(name: Seq<char>) -> bool {
    &&& name.len() > 0
    &&& forall|i: int| 0 <= i < name.len() ==> plain_char(#[trigger] name[i]) || name[i] == '.'
    &&& name != seq!['.']
    &&& name != seq!['.', '.']
}

/// A character that is no separator, no dot and no drive-prefix colon on
/// any platform: an ASCII letter or digit, '_' or '-'.
pub open spec fn plain_char(c: char) -> bool {
    ('a' <= c <= 'z') || ('A' <= c <= 'Z') || ('0' <= c <= '9') || c == '_' || c == '-'
}

/// A name made of plain characters only, and at least one.
pub open spec fn plain_name(name: Seq<char>) -> bool {
    name.len() > 0 && forall|i: int| 0 <= i < name.len() ==> plain_char(#[trigger] name[i])
}

/// Whether the name starts with the given characters.
pub open spec fn starts_with_chars(name: Seq<char>, p: Seq<char>) -> bool {
    p.len() <= name.len() && name.subrange(0, p.len() as int) == p
}

/// Two plain names with a '/' between them, such as "foo/bar".
pub open spec fn two_plain_parts(name: Seq<char>) -> bool {
    exists|i: int|
        0 < i < name.len() - 1 && #[trigger] name[i] == '/' && plain_name(name.take(i)) && plain_name(name.skip(i + 1))
}

/// How many components the path of `name` has.
///
/// Calls `Path::new(name).components().count()`. The contract claims that
/// an empty name has none, that a name of plain characters, holding no
/// separator, is one component, and that two such names around a '/',
/// which is a separator on every platform, are two; how other names split
/// depends on the platform's separators and is left unsaid.
#[verifier::external_body]
fn component_count(name: &str) -> (n: usize)
    ensures
        name@.len() == 0 ==> n == 0,
        plain_name(name@) ==> n == 1,
        two_plain_parts(name@) ==> n == 2,
{
    Path::new(name).components().count()
}

/// Whether the first component of the path of `name` is a plain name.
///
/// Calls `Path::new(name).components().next()` and tells `Component::Normal`
/// from the other kinds. The contract claims what `Component` documents: an
/// empty path has no component, a leading '/' is the root, "." and ".."
/// (alone or before a '/') are the current and parent directory, none of
/// them a plain name; and a name of plain characters, holding no separator,
/// prefix or dot, is a plain name.
#[verifier::external_body]
fn first_component_is_normal(name: &str) -> (b: bool)
    ensures
        name@.len() == 0 ==> !b,
        name@.len() > 0 && name@[0] == '/' ==> !b,
        name@ == seq!['.'] ==> !b,
        name@ == seq!['.', '.'] ==> !b,
        starts_with_chars(name@, seq!['.', '/']) ==> !b,
        starts_with_chars(name@, seq!['.', '.', '/']) ==> !b,
        plain_name(name@) ==> b,
{
    match Path::new(name).components().next() {
        Some(Component::Normal(_)) => true,
        _ => false,
    }
}

/// The message for a world name that is not a single directory name.
pub open spec fn world_name_message(name: Seq<char>) -> Seq<char> {
    "Invalid world name "@ + debug_quoted(name) + ": world_name must be a single directory name"@
}

/// The error for a world name that is not a single directory name.
fn invalid_world_name(name: &str) -> (r: std::io::Error)
    ensures
        io_error_is_invalid_input(r),
        io_error_message(r) == world_name_message(name@),
{
    let mut message = String::new();
    push_str(&mut message, "Invalid world name ");
    let quoted = debug_text(name);
    push_str(&mut message, quoted.as_str());
    push_str(&mut message, ": world_name must be a single directory name");
    invalid_input_error(message)
}

/// Whether the name ends with the character `c`.
pub open spec fn ends_with(name: Seq<char>, c: char) -> bool {
    name.len() > 0 && name.last() == c
}

fn ends_with_char(name: &str, c: char) -> (b: bool)
    ensures
        b == ends_with(name@, c),
{
    let cs = chars_of(name);
    cs.len() > 0 && cs[cs.len() - 1] == c
}

/// The world directory for a world name: the name itself, when it is a
/// single directory name; an `InvalidInput` error otherwise, in particular
/// for names ending with a separator, the empty name, ".", "..", and
/// names starting at the root or with "./" or "../". A name of ASCII
/// letters, digits, '_' and '-' is a single directory name on every
/// platform.
pub fn world_path(name: &str) -> (r: std::io::Result<&Path>)
    ensures
        ends_with(name@, '/') || ends_with(name@, '\\') ==> r is Err,
        name@.len() == 0 || name@ == seq!['.'] || name@ == seq!['.', '.'] ==> r is Err,
        name@.len() > 0 && name@[0] == '/' ==> r is Err,
        starts_with_chars(name@, seq!['.', '/']) || starts_with_chars(name@, seq!['.', '.', '/']) ==> r is Err,
        plain_name(name@) ==> r is Ok,
        two_plain_parts(name@) ==> r is Err,
        r matches Ok(p) ==> path_text(p) == name@,
        r matches Err(e) ==> io_error_is_invalid_input(e) && io_error_message(e) == world_name_message(name@),
{
    let world_path = path_new(name);
    proof {
        if plain_name(name@) {
            assert(plain_char(name@[name@.len() - 1]));
        }
    }
    if ends_with_char(name, '/') || ends_with_char(name, '\\') || component_count(name) != 1
        || !first_component_is_normal(name) {
        return Err(invalid_world_name(name));
    }
    Ok(world_path)
}

} // verus!
