//! Names that are safe to use for files, and the look-up of presets by name.
use vstd::prelude::*;

use crate::text::{chars_of, is_white, strip, strip_end, strip_start, stripped, text_of, CharClass};

verus! {

/// Whether a character is kept in a file name: an ASCII letter or digit, `_` or `-`.
pub open spec fn is_name_char(c: char) -> bool {
    ||| 'a' <= c <= 'z'
    ||| 'A' <= c <= 'Z'
    ||| '0' <= c <= '9'
    ||| c == '_'
    ||| c == '-'
}

/// The characters that a name keeps: white space becomes `_`, and what no file name
/// holds is left out.
pub open spec fn kept(s: Seq<char>) -> Seq<char>
    decreases s.len(),
{
    if s.len() == 0 {
        Seq::empty()
    } else {
        let before = kept(s.drop_last());
        let c = s.last();
        if is_name_char(c) {
            before.push(c)
        } else if is_white(c) {
            before.push('_')
        } else {
            before
        }
    }
}

/// The file name made of a name, or `fallback` if nothing is left of it.
pub open spec fn sanitized(s: Seq<char>, fallback: Seq<char>) -> Seq<char> {
    let name = strip(kept(s), CharClass::Underscore);
    if name.len() == 0 {
        fallback
    } else {
        name
    }
}

fn name_char(c: char) -> (r: bool)
    ensures
        r == is_name_char(c),
{
    ('a' <= c && c <= 'z') || ('A' <= c && c <= 'Z') || ('0' <= c && c <= '9') || c == '_' || c == '-'
}

/// Makes a file name of a name.
pub fn sanitize_name(name: &str, fallback: &str) -> (r: String)
    ensures
        r@ == sanitized(name@, fallback@),
{
    let chars: Vec<char> = chars_of(name);
    let mut out: Vec<char> = Vec::new();
    let mut i: usize = 0;
    while i < chars.len()
        invariant
            i <= chars@.len(),
            out@ == kept(chars@.take(i as int)),
        decreases chars.len() - i,
    {
        let c: char = chars[i];
        proof {
            let now = chars@.take(i + 1);
            assert(now.drop_last() == chars@.take(i as int));
            assert(now.last() == c);
        }
        if name_char(c) {
            out.push(c);
        } else if CharClass::White.contains(c) {
            out.push('_');
        }
        i = i + 1;
    }
    assert(chars@.take(chars@.len() as int) == chars@);
    let cut: Vec<char> = stripped(&out, CharClass::Underscore);
    if cut.len() == 0 {
        fallback.to_owned()
    } else {
        text_of(&cut)
    }
}

/// The directory name of a project.
pub fn sanitize_project_name(name: &str) -> (r: String)
    ensures
        r@ == sanitized(name@, "project"@),
{
    sanitize_name(name, "project")
}

/// The file name of a preset.
pub fn sanitize_preset_name(name: &str) -> (r: String)
    ensures
        r@ == sanitized(name@, "custom_preset"@),
{
    sanitize_name(name, "custom_preset")
}

/// Whether a text is made of name characters only.
pub open spec fn is_clean(s: Seq<char>) -> bool {
    forall|i: int| 0 <= i < s.len() ==> is_name_char(#[trigger] s[i])
}

proof fn lemma_kept_is_clean(s: Seq<char>)
    ensures
        is_clean(kept(s)),
    decreases s.len(),
{
    if s.len() > 0 {
        lemma_kept_is_clean(s.drop_last());
    }
}

proof fn lemma_kept_of_clean(s: Seq<char>)
    requires
        is_clean(s),
    ensures
        kept(s) == s,
    decreases s.len(),
{
    if s.len() > 0 {
        let rest = s.drop_last();
        assert forall|i: int| 0 <= i < rest.len() implies is_name_char(#[trigger] rest[i]) by {
            assert(rest[i] == s[i]);
        }
        lemma_kept_of_clean(rest);
        assert(is_name_char(s[s.len() - 1]));
        assert(rest.push(s.last()) == s);
    }
}

proof fn lemma_strip_start_part(s: Seq<char>, k: CharClass)
    ensures
        is_clean(s) ==> is_clean(strip_start(s, k)),
        strip_start(s, k).len() > 0 ==> !k.holds(strip_start(s, k)[0]),
    decreases s.len(),
{
    if s.len() > 0 && k.holds(s[0]) {
        let rest = s.skip(1);
        if is_clean(s) {
            assert forall|i: int| 0 <= i < rest.len() implies is_name_char(#[trigger] rest[i]) by {
                assert(rest[i] == s[i + 1]);
            }
        }
        lemma_strip_start_part(rest, k);
    }
}

proof fn lemma_strip_end_part(s: Seq<char>, k: CharClass)
    ensures
        is_clean(s) ==> is_clean(strip_end(s, k)),
        strip_end(s, k).len() > 0 ==> !k.holds(strip_end(s, k).last()),
        strip_end(s, k).len() > 0 ==> strip_end(s, k)[0] == s[0],
    decreases s.len(),
{
    if s.len() > 0 && k.holds(s.last()) {
        let rest = s.drop_last();
        if is_clean(s) {
            assert forall|i: int| 0 <= i < rest.len() implies is_name_char(#[trigger] rest[i]) by {
                assert(rest[i] == s[i]);
            }
        }
        lemma_strip_end_part(rest, k);
    }
}

/// A file name is never empty, holds name characters only, and does not start or end
/// with `_`, as long as that holds of the fallback.
pub proof fn law_sanitized_is_clean(s: Seq<char>, fallback: Seq<char>)
    requires
        is_clean(fallback),
        fallback.len() > 0,
        fallback[0] != '_',
        fallback.last() != '_',
    ensures
        is_clean(sanitized(s, fallback)),
        sanitized(s, fallback).len() > 0,
        sanitized(s, fallback)[0] != '_',
        sanitized(s, fallback).last() != '_',
{
    lemma_kept_is_clean(s);
    lemma_strip_start_part(kept(s), CharClass::Underscore);
    lemma_strip_end_part(strip_start(kept(s), CharClass::Underscore), CharClass::Underscore);
}

/// Making a file name of a file name changes nothing.
pub proof fn law_sanitizing_twice(s: Seq<char>, fallback: Seq<char>)
    requires
        is_clean(fallback),
        fallback.len() > 0,
        fallback[0] != '_',
        fallback.last() != '_',
    ensures
        sanitized(sanitized(s, fallback), fallback) == sanitized(s, fallback),
{
    law_sanitized_is_clean(s, fallback);
    lemma_kept_of_clean(sanitized(s, fallback));
}

/// The fallback names meet what the laws on file names ask of a fallback.
pub proof fn law_fallbacks_are_clean()
    ensures
        is_clean("project"@),
        "project"@.len() > 0,
        "project"@[0] != '_',
        "project"@.last() != '_',
        is_clean("custom_preset"@),
        "custom_preset"@.len() > 0,
        "custom_preset"@[0] != '_',
        "custom_preset"@.last() != '_',
{
    reveal_strlit("project");
    reveal_strlit("custom_preset");
}

/// A text with `_` shown as a space.
pub open spec fn spaced(s: Seq<char>) -> Seq<char> {
    Seq::new(s.len(), |i: int| if s[i] == '_' { ' ' } else { s[i] })
}

/// The display name of a preset file, from its name without the extension.
pub fn preset_display_name(stem: &str) -> (r: String)
    ensures
        r@ == spaced(stem@),
{
    let chars: Vec<char> = chars_of(stem);
    let mut out: String = String::new();
    let mut i: usize = 0;
    while i < chars.len()
        invariant
            i <= chars@.len(),
            out@ == spaced(chars@).take(i as int),
        decreases chars.len() - i,
    {
        if chars[i] == '_' {
            out.push(' ');
        } else {
            out.push(chars[i]);
        }
        assert(spaced(chars@).take(i + 1) == spaced(chars@).take(i as int).push(spaced(chars@)[i as int]));
        i = i + 1;
    }
    assert(spaced(chars@).take(chars@.len() as int) == spaced(chars@));
    out
}

/// A character with ASCII capitals made small.
pub open spec fn small(c: char) -> char {
    if 'A' <= c <= 'Z' {
        (c as u32 + 32) as char
    } else {
        c
    }
}

/// Whether two texts are the same but for the case of ASCII letters.
pub open spec fn same_but_case(a: Seq<char>, b: Seq<char>) -> bool {
    a.len() == b.len() && forall|i: int| 0 <= i < a.len() ==> small(#[trigger] a[i]) == small(b[i])
}

fn small_of(c: char) -> (r: char)
    ensures
        r == small(c),
{
    if 'A' <= c && c <= 'Z' {
        let u: u8 = c as u8;
        (u + 32) as char
    } else {
        c
    }
}

/// Whether two texts are the same but for the case of ASCII letters.
pub fn equal_but_case(a: &str, b: &str) -> (r: bool)
    ensures
        r == same_but_case(a@, b@),
{
    let x: Vec<char> = chars_of(a);
    let y: Vec<char> = chars_of(b);
    if x.len() != y.len() {
        return false;
    }
    let mut i: usize = 0;
    while i < x.len()
        invariant
            i <= x@.len(),
            x@.len() == y@.len(),
            x@ == a@,
            y@ == b@,
            forall|j: int| 0 <= j < i ==> small(#[trigger] x@[j]) == small(y@[j]),
        decreases x.len() - i,
    {
        if small_of(x[i]) != small_of(y[i]) {
            assert(small(a@[i as int]) != small(b@[i as int]));
            return false;
        }
        i = i + 1;
    }
    true
}

/// The first preset with a name, whatever its case.
pub open spec fn is_first_match(names: Seq<String>, name: Seq<char>, found: Option<usize>) -> bool {
    match found {
        Some(i) => {
            &&& i < names.len()
            &&& same_but_case(names[i as int]@, name)
            &&& forall|j: int| 0 <= j < i ==> !same_but_case(#[trigger] names[j]@, name)
        },
        None => forall|j: int| 0 <= j < names.len() ==> !same_but_case(#[trigger] names[j]@, name),
    }
}

/// Finds the first preset with a name, whatever its case.
pub fn position_of(names: &Vec<String>, name: &str) -> (r: Option<usize>)
    ensures
        is_first_match(names@, name@, r),
{
    let mut i: usize = 0;
    while i < names.len()
        invariant
            i <= names@.len(),
            forall|j: int| 0 <= j < i ==> !same_but_case(#[trigger] names@[j]@, name@),
        decreases names.len() - i,
    {
        if equal_but_case(names[i].as_str(), name) {
            return Some(i);
        }
        i = i + 1;
    }
    None
}

/// The preset that is active after saving one as `raw`: the first of that name, else the
/// first with the display name of the file that was written.
pub fn saved_preset_index(names: &Vec<String>, raw: &str) -> (r: Option<usize>)
    ensures
        (exists|i: usize| is_first_match(names@, raw@, Some(i))) ==> is_first_match(names@, raw@, r),
        is_first_match(names@, raw@, None::<usize>) ==> is_first_match(
            names@,
            spaced(sanitized(raw@, "custom_preset"@)),
            r,
        ),
{
    match position_of(names, raw) {
        Some(i) => Some(i),
        None => {
            let file_name: String = sanitize_preset_name(raw);
            let shown: String = preset_display_name(file_name.as_str());
            position_of(names, shown.as_str())
        },
    }
}

/// A file name keeps each ASCII letter and digit, `_` and `-`, has `_` for white space, and has
/// nothing for other characters.
pub proof fn law_characters_of_a_name(c: char)
    ensures
        'a' <= c <= 'z' || 'A' <= c <= 'Z' || '0' <= c <= '9' || c == '_' || c == '-' ==> kept(seq![c]) == seq![c],
        is_white(c) ==> kept(seq![c]) == seq!['_'],
        !('a' <= c <= 'z' || 'A' <= c <= 'Z' || '0' <= c <= '9' || c == '_' || c == '-') && !is_white(c) ==> kept(seq![c])
            == Seq::<char>::empty(),
{
    reveal_with_fuel(kept, 2);
    assert(seq![c].drop_last() =~= Seq::<char>::empty());
    assert(kept(Seq::<char>::empty()) =~= Seq::<char>::empty());
    assert(Seq::<char>::empty().push(c) =~= seq![c]);
    assert(Seq::<char>::empty().push('_') =~= seq!['_']);
}

/// What a name keeps, it keeps part by part and in order.
pub proof fn law_names_are_kept_in_order(a: Seq<char>, b: Seq<char>)
    ensures
        kept(a + b) == kept(a) + kept(b),
    decreases b.len(),
{
    if b.len() == 0 {
        assert(a + b =~= a);
        assert(kept(a) + kept(b) =~= kept(a));
    } else {
        assert((a + b).drop_last() =~= a + b.drop_last());
        assert((a + b).last() == b.last());
        law_names_are_kept_in_order(a, b.drop_last());
        assert(kept(a + b) =~= kept(a) + kept(b));
    }
}

/// A file name is what the name keeps without the `_` around it; only a name of which nothing
/// else is kept falls back.
pub proof fn law_names_fall_back_only_when_empty(s: Seq<char>, fallback: Seq<char>, other: Seq<char>)
    ensures
        (exists|i: int| 0 <= i < kept(s).len() && #[trigger] kept(s)[i] != '_') ==> {
            &&& sanitized(s, fallback) == strip(kept(s), CharClass::Underscore)
            &&& sanitized(s, fallback) == sanitized(s, other)
        },
        (forall|i: int| 0 <= i < kept(s).len() ==> #[trigger] kept(s)[i] == '_') ==> sanitized(s, fallback) == fallback,
{
    let k = kept(s);
    crate::text::law_strip_cuts_both_ends(k, CharClass::Underscore);
    let (i, j) = choose|i: int, j: int|
        #![trigger k.subrange(i, j)]
        0 <= i <= j <= k.len() && strip(k, CharClass::Underscore) == k.subrange(i, j) && (forall|x: int|
            0 <= x < i || j <= x < k.len() ==> CharClass::Underscore.holds(#[trigger] k[x])) && (i < j
            ==> !CharClass::Underscore.holds(k[i]) && !CharClass::Underscore.holds(k[j - 1]));
    if exists|x: int| 0 <= x < k.len() && #[trigger] k[x] != '_' {
        let x = choose|x: int| 0 <= x < k.len() && #[trigger] k[x] != '_';
        assert(i <= x < j);
    } else {
        assert(i == j);
    }
}

/// A shown name differs from its file's name in `_` alone, each of which is a space.
pub proof fn law_shown_names_have_spaces(s: Seq<char>, i: int)
    requires
        0 <= i < s.len(),
    ensures
        spaced(s).len() == s.len(),
        s[i] == '_' ==> spaced(s)[i] == ' ',
        s[i] != '_' ==> spaced(s)[i] == s[i],
        spaced(spaced(s)) == spaced(s),
{
    assert(spaced(spaced(s)) =~= spaced(s));
}

/// Names that differ in case alone are one name: each is that of itself, of each other, and of
/// what the other is; a capital and its small letter are the same, two letters never.
pub proof fn law_case_does_not_count(a: Seq<char>, b: Seq<char>, c: Seq<char>, k: nat, m: nat)
    ensures
        same_but_case(a, a),
        same_but_case(a, b) ==> same_but_case(b, a),
        same_but_case(a, b) && same_but_case(b, c) ==> same_but_case(a, c),
        k < 26 ==> small((65 + k) as char) == (97 + k) as char && small((97 + k) as char) == (97 + k) as char,
        k < 26 && m < 26 && k != m ==> small((65 + k) as char) != small((65 + m) as char),
{
}

/// A look-up finds one preset at most: the first of the name.
pub proof fn law_one_preset_is_found(names: Seq<String>, name: Seq<char>, i: usize, j: usize)
    ensures
        is_first_match(names, name, Some(i)) && is_first_match(names, name, Some(j)) ==> i == j,
        is_first_match(names, name, Some(i)) ==> !is_first_match(names, name, None::<usize>),
{
    if is_first_match(names, name, Some(i)) {
        assert(same_but_case(names[i as int]@, name));
        if is_first_match(names, name, Some(j)) {
            assert(same_but_case(names[j as int]@, name));
        }
    }
}

/// Only capitals are made small, and names without any are the same only if they are equal.
pub proof fn law_only_capitals_are_made_small(a: Seq<char>, b: Seq<char>, c: char)
    ensures
        !('A' <= c <= 'Z') ==> small(c) == c,
        'A' <= c <= 'Z' ==> small(c) as u32 == c as u32 + 32,
        same_but_case(a, b) ==> a.len() == b.len(),
        same_but_case(a, b) && (forall|i: int| 0 <= i < a.len() ==> !('A' <= #[trigger] a[i] <= 'Z')) && (forall|i: int|
            0 <= i < b.len() ==> !('A' <= #[trigger] b[i] <= 'Z')) ==> a == b,
{
    if same_but_case(a, b) && (forall|i: int| 0 <= i < a.len() ==> !('A' <= #[trigger] a[i] <= 'Z')) && (forall|i: int|
        0 <= i < b.len() ==> !('A' <= #[trigger] b[i] <= 'Z')) {
        assert forall|i: int| 0 <= i < a.len() implies a[i] == b[i] by {
            assert(small(a[i]) == small(b[i]));
        }
        assert(a =~= b);
    }
}

} // verus!
