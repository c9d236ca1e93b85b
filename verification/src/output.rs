//! Where a finished frame is written.

use crate::scene::lexer::chars_of;
use vstd::prelude::*;
use vstd::string::StringExecFns;

verus! {

/// Tells whether `s` ends with `suffix`.
pub open spec fn ends_with(s: Seq<char>, suffix: Seq<char>) -> bool {
    s.len() >= suffix.len() && s.skip(s.len() - suffix.len()) == suffix
}

/// A file name with the extension of a PNG image, which is added unless the
/// name has it already.
pub open spec fn png_name_of(name: Seq<char>) -> Seq<char> {
    if ends_with(name, ".png"@) {
        name
    } else {
        name + ".png"@
    }
}

/// The file that a render called `name` is written to.
pub open spec fn render_path_of(name: Seq<char>) -> Seq<char> {
    png_name_of("images/"@ + name)
}

/// The file that a preview of the render called `name` is written to.
pub open spec fn preview_path_of(name: Seq<char>) -> Seq<char> {
    png_name_of("images/"@ + name + "_preview"@)
}

/// Tells whether `text` ends with `suffix`.
pub fn has_suffix(text: &str, suffix: &str) -> (b: bool)
    ensures
        b == ends_with(text@, suffix@),
{
    let s = chars_of(text);
    let t = chars_of(suffix);
    if s.len() < t.len() {
        return false;
    }
    let from: usize = s.len() - t.len();
    let mut i: usize = 0;
    while i < t.len()
        invariant
            i <= t.len(),
            from + t.len() == s.len(),
            s@ == text@,
            t@ == suffix@,
            s@.skip(from as int).take(i as int) == t@.take(i as int),
        decreases t.len() - i,
    {
        if s[from + i] != t[i] {
            proof {
                assert(s@.skip(from as int)[i as int] != t@[i as int]);
            }
            return false;
        }
        proof {
            let tail = s@.skip(from as int);
            assert(tail.take(i + 1) == tail.take(i as int).push(tail[i as int]));
            assert(t@.take(i + 1) == t@.take(i as int).push(t@[i as int]));
        }
        i = i + 1;
    }
    proof {
        assert(s@.skip(from as int).take(t.len() as int) == s@.skip(from as int));
        assert(t@.take(t.len() as int) == t@);
    }
    true
}

/// Gives a file name the extension of a PNG image unless it has it.
pub fn png_name(name: String) -> (out: String)
    ensures
        out@ == png_name_of(name@),
{
    if has_suffix(name.as_str(), ".png") {
        name
    } else {
        name.concat(".png")
    }
}

/// The file that a render called `name` is written to.
pub fn render_path(name: &str) -> (path: String)
    ensures
        path@ == render_path_of(name@),
{
    let path = String::from_str("images/").concat(name);
    png_name(path)
}

/// The file that a preview of the render called `name` is written to.
pub fn preview_path(name: &str) -> (path: String)
    ensures
        path@ == preview_path_of(name@),
{
    let path = String::from_str("images/").concat(name).concat("_preview");
    png_name(path)
}

/// A name that was given the extension keeps it: the extension is never
/// added twice.
pub proof fn lemma_png_name_once(name: Seq<char>)
    ensures
        ends_with(png_name_of(name), ".png"@),
        png_name_of(png_name_of(name)) == png_name_of(name),
{
    if !ends_with(name, ".png"@) {
        let longer = name + ".png"@;
        assert(longer.skip(longer.len() - ".png"@.len()) == ".png"@);
    }
}

} // verus!
