//! Texts as sequences of characters.

use vstd::prelude::*;

verus! {

/// Appends one character to a string: `String::push` of the standard
/// library. The contract claims that the new contents are the old ones
/// followed by `c`.
#[verifier::external_body]
pub(crate) fn push_char(s: &mut String, c: char)
    ensures
        final(s)@ == old(s)@.push(c),
{
    s.push(c)
}

/// What `str::to_uppercase` of the standard library makes of a text.
pub uninterp spec fn uppercase_of(text: Seq<char>) -> Seq<char>;

/// What `str::to_lowercase` of the standard library makes of a text.
pub uninterp spec fn lowercase_of(text: Seq<char>) -> Seq<char>;

/// The upper-case form of a text: `str::to_uppercase` of the standard
/// library, which goes by the Unicode tables. The contract only names
/// the result.
#[verifier::external_body]
pub(crate) fn to_upper(text: &str) -> (r: String)
    ensures
        r@ == uppercase_of(text@),
{
    text.to_uppercase()
}

/// The lower-case form of a text: `str::to_lowercase` of the standard
/// library, which goes by the Unicode tables. The contract only names
/// the result.
#[verifier::external_body]
pub(crate) fn to_lower(text: &str) -> (r: String)
    ensures
        r@ == lowercase_of(text@),
{
    text.to_lowercase()
}

/// What a list of texts says.
pub open spec fn texts_view(texts: Seq<String>) -> Seq<Seq<char>> {
    Seq::new(texts.len(), |i: int| texts[i]@)
}

/// The characters of a string, in order.
pub fn to_chars(s: &str) -> (v: Vec<char>)
    ensures
        v@ == s@,
{
    let mut v: Vec<char> = Vec::new();
    for c in it: s.chars()
        invariant
            it.seq() == s@,
            v@ == it.seq().take(it.index() as int),
    {
        v.push(c);
    }
    v
}

/// The first text followed by the second.
pub fn join2(a: &str, b: &str) -> (s: String)
    ensures
        s@ == a@ + b@,
{
    let mut s = String::from_str(a);
    s.append(b);
    s
}

/// Whether two strings hold the same characters.
pub fn same_text(a: &str, b: &str) -> (r: bool)
    ensures
        r == (a@ == b@),
{
    let x = to_chars(a);
    let y = to_chars(b);
    same_chars(&x, &y)
}

/// Whether two character vectors hold the same characters.
pub fn same_chars(x: &Vec<char>, y: &Vec<char>) -> (r: bool)
    ensures
        r == (x@ == y@),
{
    if x.len() != y.len() {
        return false;
    }
    let mut i: usize = 0;
    while i < x.len()
        invariant
            i <= x.len(),
            x.len() == y.len(),
            x@.take(i as int) == y@.take(i as int),
        decreases x.len() - i,
    {
        if x[i] != y[i] {
            return false;
        }
        assert(x@.take(i + 1) == x@.take(i as int).push(x@[i as int]));
        assert(y@.take(i + 1) == y@.take(i as int).push(y@[i as int]));
        i = i + 1;
    }
    assert(x@.take(i as int) == x@);
    assert(y@.take(i as int) == y@);
    true
}

/// The string that holds the given characters.
pub fn from_chars(v: &Vec<char>) -> (s: String)
    ensures
        s@ == v@,
{
    let mut s = String::new();
    let mut i: usize = 0;
    while i < v.len()
        invariant
            i <= v.len(),
            s@ == v@.take(i as int),
        decreases v.len() - i,
    {
        push_char(&mut s, v[i]);
        assert(v@.take(i + 1) == v@.take(i as int).push(v@[i as int]));
        i = i + 1;
    }
    assert(v@.take(i as int) == v@);
    s
}

/// Whether `part` stands in `text` at place `at`.
pub open spec fn stands_at(text: Seq<char>, at: int, part: Seq<char>) -> bool {
    0 <= at && at + part.len() <= text.len() && text.subrange(at, at + part.len()) == part
}

/// `text` from place `at` on with every `from` turned into `to`, reading
/// from the left and never into what has been put in. An empty `from`
/// stands nowhere.
pub open spec fn replaced_from(text: Seq<char>, at: int, from: Seq<char>, to: Seq<char>) -> Seq<
    char,
>
    decreases text.len() - at,
{
    if at < 0 || at >= text.len() {
        Seq::empty()
    } else if from.len() > 0 && stands_at(text, at, from) {
        to + replaced_from(text, at + from.len(), from, to)
    } else {
        seq![text[at]] + replaced_from(text, at + 1, from, to)
    }
}

/// `text` with every `from` turned into `to`.
pub open spec fn replaced_in(text: Seq<char>, from: Seq<char>, to: Seq<char>) -> Seq<char> {
    replaced_from(text, 0, from, to)
}

/// Whether `part` stands in `text` at place `at`.
fn found_at(text: &Vec<char>, at: usize, part: &Vec<char>) -> (r: bool)
    requires
        at <= text.len(),
    ensures
        r == stands_at(text@, at as int, part@),
{
    if part.len() > text.len() - at {
        return false;
    }
    let mut k: usize = 0;
    while k < part.len()
        invariant
            k <= part.len(),
            at + part.len() <= text.len(),
            forall|j: int| 0 <= j < k ==> text@[at + j] == part@[j],
        decreases part.len() - k,
    {
        if text[at + k] != part[k] {
            assert(text@.subrange(at as int, at + part.len())[k as int] == text@[at + k]);
            return false;
        }
        k = k + 1;
    }
    assert(text@.subrange(at as int, at + part.len()) =~= part@);
    true
}

/// `text` with every `from` turned into `to`.
pub fn replace_all(text: &str, from: &str, to: &str) -> (r: String)
    ensures
        r@ == replaced_in(text@, from@, to@),
{
    let t = to_chars(text);
    let f = to_chars(from);
    let o = to_chars(to);
    let mut out: Vec<char> = Vec::new();
    let mut i: usize = 0;
    assert(out@ + replaced_from(t@, 0, f@, o@) =~= replaced_in(t@, f@, o@));
    while i < t.len()
        invariant
            i <= t.len(),
            out@ + replaced_from(t@, i as int, f@, o@) == replaced_in(t@, f@, o@),
        decreases t.len() - i,
    {
        let ghost before = out@;
        if f.len() > 0 && found_at(&t, i, &f) {
            let mut k: usize = 0;
            while k < o.len()
                invariant
                    k <= o.len(),
                    out@ == before + o@.take(k as int),
                decreases o.len() - k,
            {
                out.push(o[k]);
                assert(o@.take(k + 1) =~= o@.take(k as int).push(o@[k as int]));
                k = k + 1;
            }
            assert(o@.take(k as int) =~= o@);
            assert(before + (o@ + replaced_from(t@, i + f@.len(), f@, o@)) =~= out@
                + replaced_from(t@, i + f@.len(), f@, o@));
            i = i + f.len();
        } else {
            out.push(t[i]);
            assert(before + (seq![t@[i as int]] + replaced_from(t@, i + 1, f@, o@)) =~= out@
                + replaced_from(t@, i + 1, f@, o@));
            i = i + 1;
        }
    }
    assert(replaced_from(t@, i as int, f@, o@) =~= Seq::<char>::empty());
    assert(out@ + Seq::<char>::empty() =~= out@);
    from_chars(&out)
}

} // verus!
