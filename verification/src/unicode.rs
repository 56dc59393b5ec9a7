//! The Unicode boundary of the library: grapheme-cluster segmentation and
//! display width come from outside crates through trusted wrappers, while the
//! character classes the fragment rules need (whitespace, control) are defined
//! and computed here.

use vstd::prelude::*;

verus! {

/// The extended grapheme clusters of `s`, in order. What the clusters are is
/// a function of the characters alone; it is fixed by Unicode Standard Annex
/// #29 and computed by an outside crate, so it is left uninterpreted here.
pub uninterp spec fn graphemes_of(s: Seq<char>) -> Seq<Seq<char>>;

/// The displayed column width of `s`. A function of the characters alone,
/// fixed by the Unicode East-Asian-width tables and computed by an outside
/// crate, so it is left uninterpreted here.
pub uninterp spec fn width_of(s: Seq<char>) -> nat;

/// Concatenation of a sequence of character sequences.
pub open spec fn concat_texts(gs: Seq<Seq<char>>) -> Seq<char>
    decreases gs.len(),
{
    if gs.len() == 0 {
        Seq::empty()
    } else {
        gs[0] + concat_texts(gs.drop_first())
    }
}

/// Relies on unicode_segmentation's `UnicodeSegmentation::graphemes` with
/// `is_extended == true`: it yields the extended grapheme clusters of `s` in
/// order; the clusters are non-empty substrings that partition `s`.
#[verifier::external_body]
pub(crate) fn segment(s: &str) -> (r: Vec<String>)
    ensures
        r@.map_values(|g: String| g@) == graphemes_of(s@),
        concat_texts(r@.map_values(|g: String| g@)) == s@,
        forall|i: int| 0 <= i < r@.len() ==> r@[i]@.len() > 0,
{
    unicode_segmentation::UnicodeSegmentation::graphemes(s, true)
        .map(|g| g.to_string())
        .collect()
}

/// Relies on unicode_width's `UnicodeWidthStr::width`: the displayed width of
/// `s` in columns, a function of its characters alone.
#[verifier::external_body]
pub(crate) fn str_width(s: &str) -> (r: usize)
    ensures
        r as nat == width_of(s@),
{
    unicode_width::UnicodeWidthStr::width(s)
}

/// Relies on std's `String::push`: appends the character to the string.
#[verifier::external_body]
pub(crate) fn push_char(s: &mut String, c: char)
    ensures
        final(s)@ == old(s)@.push(c),
{
    s.push(c)
}

/// The Unicode `White_Space` characters, the class std's
/// `char::is_whitespace` decides.
pub open spec fn is_whitespace_char(c: char) -> bool {
    let u = c as u32;
    (9 <= u && u <= 13) || u == 32 || u == 0x85 || u == 0xA0 || u == 0x1680 || (0x2000 <= u
        && u <= 0x200A) || u == 0x2028 || u == 0x2029 || u == 0x202F || u == 0x205F || u == 0x3000
}

/// The control characters (C0 and C1 plus delete), the class std's
/// `char::is_control` decides.
pub open spec fn is_control_char(c: char) -> bool {
    let u = c as u32;
    u < 0x20 || (0x7F <= u && u <= 0x9F)
}

/// Decides `is_whitespace_char`.
pub fn check_whitespace(c: char) -> (r: bool)
    ensures
        r == is_whitespace_char(c),
{
    let u = c as u32;
    (9 <= u && u <= 13) || u == 32 || u == 0x85 || u == 0xA0 || u == 0x1680 || (0x2000 <= u
        && u <= 0x200A) || u == 0x2028 || u == 0x2029 || u == 0x202F || u == 0x205F || u == 0x3000
}

/// Decides `is_control_char`.
pub fn check_control(c: char) -> (r: bool)
    ensures
        r == is_control_char(c),
{
    let u = c as u32;
    u < 0x20 || (0x7F <= u && u <= 0x9F)
}

/// Whether some character of `g` is whitespace.
pub open spec fn has_whitespace(g: Seq<char>) -> bool {
    exists|i: int| 0 <= i < g.len() && is_whitespace_char(g[i])
}

/// Whether some character of `g` is a control character.
pub open spec fn has_control(g: Seq<char>) -> bool {
    exists|i: int| 0 <= i < g.len() && is_control_char(g[i])
}

/// Decides `has_whitespace` over the characters of `g`.
pub fn check_has_whitespace(g: &str) -> (r: bool)
    ensures
        r == has_whitespace(g@),
{
    let n = g.unicode_len();
    let mut k: usize = 0;
    while k < n
        invariant
            n == g@.len(),
            k <= n,
            forall|i: int| 0 <= i < k ==> !is_whitespace_char(g@[i]),
        decreases n - k,
    {
        if check_whitespace(g.get_char(k)) {
            return true;
        }
        k = k + 1;
    }
    false
}

/// Decides `has_control` over the characters of `g`.
pub fn check_has_control(g: &str) -> (r: bool)
    ensures
        r == has_control(g@),
{
    let n = g.unicode_len();
    let mut k: usize = 0;
    while k < n
        invariant
            n == g@.len(),
            k <= n,
            forall|i: int| 0 <= i < k ==> !is_control_char(g@[i]),
        decreases n - k,
    {
        if check_control(g.get_char(k)) {
            return true;
        }
        k = k + 1;
    }
    false
}

} // verus!
