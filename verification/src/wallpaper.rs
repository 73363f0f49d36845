//! Where the desktop keeps its wallpaper, from what the settings tool prints:
//! a quoted `file://` address with percent escapes, and a line end.

use std::string::FromUtf8Error;
use vstd::prelude::*;
use vstd::string::*;
use vstd::utf8::{decode_utf8, valid_utf8};

verus! {

/// What a byte sequence that is not UTF-8 gives in place of text.
#[verifier::external_type_specification]
#[verifier::external_body]
pub struct ExFromUtf8Error(FromUtf8Error);

/// Why no path could be made out.
#[derive(Clone, Copy, Debug, PartialEq, Eq, Structural)]
pub enum PathError {
    /// What the settings tool printed is not UTF-8.
    Output,
    /// The address, with its escapes resolved, is not UTF-8.
    Escape,
}

/// What is stripped from the ends of a text.
#[derive(Clone, Copy, Debug, PartialEq, Eq, Structural)]
pub enum Strip {
    /// White space, as Unicode's property `White_Space` has it.
    Space,
    /// The single quote.
    Quote,
}

/// Unicode's property `White_Space`.
pub open spec fn is_space(c: char) -> bool {
    let u = c as u32;
    ||| 0x09 <= u <= 0x0D
    ||| u == 0x20
    ||| u == 0x85
    ||| u == 0xA0
    ||| u == 0x1680
    ||| 0x2000 <= u <= 0x200A
    ||| u == 0x2028
    ||| u == 0x2029
    ||| u == 0x202F
    ||| u == 0x205F
    ||| u == 0x3000
}

/// `c` is of the kind that is stripped.
pub open spec fn strips(kind: Strip, c: char) -> bool {
    match kind {
        Strip::Space => is_space(c),
        Strip::Quote => c == '\'',
    }
}

/// The text without the stripped characters at its start.
pub open spec fn skip_while(s: Seq<char>, kind: Strip) -> Seq<char>
    decreases s.len(),
{
    if s.len() > 0 && strips(kind, s[0]) {
        skip_while(s.skip(1), kind)
    } else {
        s
    }
}

/// The text without the stripped characters at its end.
pub open spec fn drop_while(s: Seq<char>, kind: Strip) -> Seq<char>
    decreases s.len(),
{
    if s.len() > 0 && strips(kind, s.last()) {
        drop_while(s.drop_last(), kind)
    } else {
        s
    }
}

/// The text without the stripped characters at either end.
pub open spec fn trim(s: Seq<char>, kind: Strip) -> Seq<char> {
    drop_while(skip_while(s, kind), kind)
}

/// The scheme of a file address.
pub open spec fn file_scheme() -> Seq<char> {
    seq!['f', 'i', 'l', 'e', ':', '/', '/']
}

/// `s` from `at` on begins with the scheme.
pub open spec fn has_scheme_at(s: Seq<char>, at: int) -> bool {
    at + 7 <= s.len() && s.subrange(at, at + 7) == file_scheme()
}

/// The text without the scheme at its start, however often it stands there.
pub open spec fn skip_scheme(s: Seq<char>) -> Seq<char>
    decreases s.len(),
{
    if has_scheme_at(s, 0) {
        skip_scheme(s.skip(7))
    } else {
        s
    }
}

/// The address in what the settings tool printed: without white space and
/// quotes around it, and without the scheme before it.
pub open spec fn location(text: Seq<char>) -> Seq<char> {
    skip_scheme(trim(trim(text, Strip::Space), Strip::Quote))
}

/// The text that percent escapes resolve to, where that is UTF-8.
pub uninterp spec fn percent_decoded(text: Seq<char>) -> Option<Seq<char>>;

/// The path of the wallpaper in what the settings tool printed.
pub open spec fn wallpaper_path(output: Seq<u8>) -> Result<Seq<char>, PathError> {
    if !valid_utf8(output) {
        Err(PathError::Output)
    } else {
        match percent_decoded(location(decode_utf8(output))) {
            Some(path) => Ok(path),
            None => Err(PathError::Escape),
        }
    }
}

/// `String::from_utf8` of std: the text that the bytes encode, or an error
/// where they are not UTF-8.
#[verifier::external_body]
fn text_of(bytes: Vec<u8>) -> (text: Result<String, FromUtf8Error>)
    ensures
        text is Ok <==> valid_utf8(bytes@),
        text matches Ok(s) ==> s@ == decode_utf8(bytes@),
{
    String::from_utf8(bytes)
}

/// `decode` of the crate urlencoding: each `%` with two hexadecimal digits
/// behind it becomes the byte they write, and the result is text again or,
/// where it is not UTF-8, an error. The text is a function of the argument
/// alone, here called `percent_decoded`.
#[verifier::external_body]
fn percent_decode(text: &str) -> (decoded: Result<String, FromUtf8Error>)
    ensures
        match decoded {
            Ok(s) => percent_decoded(text@) == Some(s@),
            Err(_) => percent_decoded(text@) is None,
        },
{
    match urlencoding::decode(text) {
        Ok(s) => Ok(s.into_owned()),
        Err(e) => Err(e),
    }
}

/// Whether `c` is white space.
fn is_white_space(c: char) -> (space: bool)
    ensures
        space == is_space(c),
{
    let u: u32 = c as u32;
    (0x09 <= u && u <= 0x0D) || u == 0x20 || u == 0x85 || u == 0xA0 || u == 0x1680 || (0x2000 <= u
        && u <= 0x200A) || u == 0x2028 || u == 0x2029 || u == 0x202F || u == 0x205F || u == 0x3000
}

/// Whether `c` is of the kind that is stripped.
fn is_stripped(kind: Strip, c: char) -> (stripped: bool)
    ensures
        stripped == strips(kind, c),
{
    match kind {
        Strip::Space => is_white_space(c),
        Strip::Quote => c == '\'',
    }
}

/// Skipping goes on behind a stripped character.
proof fn lemma_skip_step(s: Seq<char>, kind: Strip, a: int)
    requires
        0 <= a < s.len(),
        strips(kind, s[a]),
    ensures
        skip_while(s.skip(a), kind) == skip_while(s.skip(a + 1), kind),
{
    assert(s.skip(a).skip(1) == s.skip(a + 1));
}

/// Dropping goes on before a stripped character.
proof fn lemma_drop_step(s: Seq<char>, kind: Strip, a: int, b: int)
    requires
        0 <= a < b <= s.len(),
        strips(kind, s[b - 1]),
    ensures
        drop_while(s.subrange(a, b), kind) == drop_while(s.subrange(a, b - 1), kind),
{
    assert(s.subrange(a, b).drop_last() == s.subrange(a, b - 1));
}

/// The text without the stripped characters at either end.
pub fn trimmed(s: &str, kind: Strip) -> (t: &str)
    ensures
        t@ == trim(s@, kind),
{
    let n = s.unicode_len();
    let mut a: usize = 0;
    proof {
        assert(s@.skip(0) == s@);
    }
    while a < n && is_stripped(kind, s.get_char(a))
        invariant
            a <= n,
            n == s@.len(),
            skip_while(s@, kind) == skip_while(s@.skip(a as int), kind),
        decreases n - a,
    {
        proof {
            lemma_skip_step(s@, kind, a as int);
        }
        a = a + 1;
    }
    let mut b: usize = n;
    proof {
        assert(s@.skip(a as int) == s@.subrange(a as int, n as int));
        assert(skip_while(s@, kind) == s@.subrange(a as int, n as int));
    }
    while b > a && is_stripped(kind, s.get_char(b - 1))
        invariant
            a <= b <= n,
            n == s@.len(),
            trim(s@, kind) == drop_while(s@.subrange(a as int, b as int), kind),
        decreases b - a,
    {
        proof {
            lemma_drop_step(s@, kind, a as int, b as int);
        }
        b = b - 1;
    }
    s.substring_char(a, b)
}

/// Whether `s` from `at` on begins with the scheme of a file address.
fn scheme_at(s: &str, n: usize, at: usize) -> (found: bool)
    requires
        n == s@.len(),
        at <= n,
    ensures
        found == has_scheme_at(s@, at as int),
{
    if n - at < 7 {
        return false;
    }
    let found = s.get_char(at) == 'f' && s.get_char(at + 1) == 'i' && s.get_char(at + 2) == 'l'
        && s.get_char(at + 3) == 'e' && s.get_char(at + 4) == ':' && s.get_char(at + 5) == '/'
        && s.get_char(at + 6) == '/';
    proof {
        let part = s@.subrange(at as int, at + 7);
        if found {
            assert(part =~= file_scheme());
        } else {
            assert(part[0] == s@[at as int]);
            assert(part[1] == s@[at + 1]);
            assert(part[2] == s@[at + 2]);
            assert(part[3] == s@[at + 3]);
            assert(part[4] == s@[at + 4]);
            assert(part[5] == s@[at + 5]);
            assert(part[6] == s@[at + 6]);
        }
    }
    found
}

/// The text without the scheme of a file address at its start, however
/// often it stands there.
pub fn without_scheme(s: &str) -> (t: &str)
    ensures
        t@ == skip_scheme(s@),
{
    let n = s.unicode_len();
    let mut at: usize = 0;
    proof {
        assert(s@.skip(0) == s@);
    }
    while scheme_at(s, n, at)
        invariant
            at <= n,
            n == s@.len(),
            skip_scheme(s@) == skip_scheme(s@.skip(at as int)),
        decreases n - at,
    {
        proof {
            let rest = s@.skip(at as int);
            assert(rest.subrange(0, 7) == s@.subrange(at as int, at + 7));
            assert(rest.skip(7) == s@.skip(at + 7));
        }
        at = at + 7;
    }
    proof {
        let rest = s@.skip(at as int);
        if at + 7 <= n {
            assert(rest.subrange(0, 7) == s@.subrange(at as int, at + 7));
        }
        assert(rest == s@.subrange(at as int, n as int));
    }
    s.substring_char(at, n)
}

/// The address in what the settings tool printed.
pub fn locate(text: &str) -> (address: &str)
    ensures
        address@ == location(text@),
{
    without_scheme(trimmed(trimmed(text, Strip::Space), Strip::Quote))
}

/// The path of the wallpaper, from the bytes that the settings tool
/// printed.
pub fn get_wallpaper_path(output: Vec<u8>) -> (path: Result<String, PathError>)
    ensures
        match path {
            Ok(p) => wallpaper_path(output@) == Ok::<Seq<char>, PathError>(p@),
            Err(e) => wallpaper_path(output@) == Err::<Seq<char>, PathError>(e),
        },
{
    let text = match text_of(output) {
        Ok(text) => text,
        Err(_) => {
            return Err(PathError::Output);
        },
    };
    match percent_decode(locate(text.as_str())) {
        Ok(path) => Ok(path),
        Err(_) => Err(PathError::Escape),
    }
}

} // verus!
