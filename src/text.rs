use vstd::prelude::*;
use vstd::string::StringExecFns;

verus! {

/// `base` joined with the relative path `rel`: an empty base leaves `rel`
/// alone, any other gets one separator in between.
pub open spec fn joined(base: Seq<char>, rel: Seq<char>) -> Seq<char> {
    if base.len() == 0 {
        rel
    } else {
        base + "/"@ + rel
    }
}

/// Joins a directory and a relative path with `/`.
///
/// A base that already ends in a separator gets a second one, which names
/// the same directory.
pub fn join_path(base: &str, rel: &str) -> (r: String)
    ensures
        r@ == joined(base@, rel@),
{
    if base.is_empty() {
        String::from_str(rel)
    } else {
        let mut r = String::from_str(base);
        r.append("/");
        r.append(rel);
        r
    }
}

/// `s` with every occurrence of `pat` replaced by `rep`, scanning from the
/// left; occurrences never overlap and replaced text is not scanned again.
pub open spec fn replaced(s: Seq<char>, pat: Seq<char>, rep: Seq<char>) -> Seq<char>
    decreases s.len(),
{
    if s.len() == 0 {
        s
    } else if pat.len() > 0 && pat.len() <= s.len() && s.subrange(0, pat.len() as int) == pat {
        rep + replaced(s.subrange(pat.len() as int, s.len() as int), pat, rep)
    } else {
        seq![s[0]] + replaced(s.subrange(1, s.len() as int), pat, rep)
    }
}

/// Relies on `str::replace`: it replaces every non-overlapping match of a
/// non-empty pattern, found from the left, and copies the rest unchanged.
#[verifier::external_body]
pub(crate) fn replace_all(s: &str, pat: &str, rep: &str) -> (r: String)
    requires
        pat@.len() > 0,
    ensures
        r@ == replaced(s@, pat@, rep@),
{
    s.replace(pat, rep)
}

/// The decimal digit `d` as a character.
pub open spec fn digit_char(d: nat) -> char {
    if d == 0 { '0' }
    else if d == 1 { '1' }
    else if d == 2 { '2' }
    else if d == 3 { '3' }
    else if d == 4 { '4' }
    else if d == 5 { '5' }
    else if d == 6 { '6' }
    else if d == 7 { '7' }
    else if d == 8 { '8' }
    else { '9' }
}

/// `v` in decimal, padded on the left with zeros to at least `width` digits.
pub open spec fn padded_decimal(v: nat, width: nat) -> Seq<char>
    decreases v + width,
{
    if v < 10 && width <= 1 {
        seq![digit_char(v)]
    } else {
        padded_decimal(v / 10, if width == 0 { 0 } else { (width - 1) as nat })
            + seq![digit_char(v % 10)]
    }
}

fn digit_str(d: u32) -> (r: &'static str)
    requires
        d < 10,
    ensures
        r@ == seq![digit_char(d as nat)],
{
    proof {
        reveal_strlit("0");
        reveal_strlit("1");
        reveal_strlit("2");
        reveal_strlit("3");
        reveal_strlit("4");
        reveal_strlit("5");
        reveal_strlit("6");
        reveal_strlit("7");
        reveal_strlit("8");
        reveal_strlit("9");
    }
    if d == 0 { "0" }
    else if d == 1 { "1" }
    else if d == 2 { "2" }
    else if d == 3 { "3" }
    else if d == 4 { "4" }
    else if d == 5 { "5" }
    else if d == 6 { "6" }
    else if d == 7 { "7" }
    else if d == 8 { "8" }
    else { "9" }
}

/// Appends `v` in decimal, zero-padded to at least `width` digits.
pub fn push_padded(out: &mut String, v: u32, width: u32)
    ensures
        final(out)@ == old(out)@ + padded_decimal(v as nat, width as nat),
    decreases v + width,
{
    if v < 10 && width <= 1 {
        out.append(digit_str(v));
    } else {
        let w: u32 = if width == 0 { 0 } else { width - 1 };
        push_padded(out, v / 10, w);
        out.append(digit_str(v % 10));
        assert(final(out)@ =~= old(out)@ + padded_decimal(v as nat, width as nat));
    }
}

} // verus!
