//! Text helpers over sequences of characters.
use vstd::prelude::*;
use vstd::string::StringExecFns;

verus! {

/// Appends a character. `String::push` appends the given character to the end of the
/// string and changes nothing else.
pub assume_specification[ String::push ](s: &mut String, c: char)
    ensures
        final(s)@ == old(s)@.push(c),
;

/// Whether two texts are the same.
pub fn same_text(a: &str, b: &str) -> (r: bool)
    ensures
        r == (a@ == b@),
{
    a.to_owned() == b.to_owned()
}

/// The characters of a text.
pub fn chars_of(s: &str) -> (r: Vec<char>)
    ensures
        r@ == s@,
{
    let mut out: Vec<char> = Vec::new();
    for c in it: s.chars()
        invariant
            out@ == it.seq().take(it.index()),
            it.seq() == s@,
    {
        out.push(c);
    }
    out
}

/// The text made of some characters.
pub fn text_of(chars: &Vec<char>) -> (r: String)
    ensures
        r@ == chars@,
{
    let mut out: String = String::new();
    let mut i: usize = 0;
    while i < chars.len()
        invariant
            i <= chars@.len(),
            out@ == chars@.take(i as int),
        decreases chars.len() - i,
    {
        out.push(chars[i]);
        i = i + 1;
    }
    assert(chars@.take(chars@.len() as int) == chars@);
    out
}

/// The classes of characters that texts are cut at.
#[derive(Clone, Copy, Debug, PartialEq, Eq, Structural)]
pub enum CharClass {
    /// White space: the code points with the property White_Space.
    White,
    /// The underscore.
    Underscore,
    /// The number sign.
    Hash,
    /// What separates the entries of a pool: a semicolon or a line break.
    Separator,
}

/// Whether a character is white space.
pub open spec fn is_white(c: char) -> bool {
    let u = c as u32;
    ||| 0x09 <= u <= 0x0d
    ||| u == 0x20
    ||| u == 0x85
    ||| u == 0xa0
    ||| u == 0x1680
    ||| 0x2000 <= u <= 0x200a
    ||| u == 0x2028
    ||| u == 0x2029
    ||| u == 0x202f
    ||| u == 0x205f
    ||| u == 0x3000
}

impl CharClass {
    /// Whether a character belongs to the class.
    pub open spec fn holds(self, c: char) -> bool {
        match self {
            CharClass::White => is_white(c),
            CharClass::Underscore => c == '_',
            CharClass::Hash => c == '#',
            CharClass::Separator => c == ';' || c == '\n' || c == '\r',
        }
    }

    /// Whether a character belongs to the class.
    pub fn contains(&self, c: char) -> (r: bool)
        ensures
            r == self.holds(c),
    {
        match self {
            CharClass::White => {
                let u: u32 = c as u32;
                (0x09 <= u && u <= 0x0d) || u == 0x20 || u == 0x85 || u == 0xa0 || u == 0x1680 || (0x2000 <= u && u
                    <= 0x200a) || u == 0x2028 || u == 0x2029 || u == 0x202f || u == 0x205f || u == 0x3000
            },
            CharClass::Underscore => c == '_',
            CharClass::Hash => c == '#',
            CharClass::Separator => c == ';' || c == '\n' || c == '\r',
        }
    }
}

/// A text without the characters of a class at its start.
pub open spec fn strip_start(s: Seq<char>, k: CharClass) -> Seq<char>
    decreases s.len(),
{
    if s.len() > 0 && k.holds(s[0]) {
        strip_start(s.skip(1), k)
    } else {
        s
    }
}

/// A text without the characters of a class at its end.
pub open spec fn strip_end(s: Seq<char>, k: CharClass) -> Seq<char>
    decreases s.len(),
{
    if s.len() > 0 && k.holds(s.last()) {
        strip_end(s.drop_last(), k)
    } else {
        s
    }
}

/// A text without the characters of a class at either end.
pub open spec fn strip(s: Seq<char>, k: CharClass) -> Seq<char> {
    strip_end(strip_start(s, k), k)
}

/// Removes the characters of a class from the start.
pub fn stripped_start(s: &Vec<char>, k: CharClass) -> (r: Vec<char>)
    ensures
        r@ == strip_start(s@, k),
{
    let mut i: usize = 0;
    assert(s@.skip(0) == s@);
    while i < s.len() && k.contains(s[i])
        invariant
            i <= s@.len(),
            strip_start(s@, k) == strip_start(s@.skip(i as int), k),
        decreases s.len() - i,
    {
        assert(s@.skip(i as int).skip(1) == s@.skip(i + 1));
        i = i + 1;
    }
    let mut out: Vec<char> = Vec::new();
    let start: usize = i;
    while i < s.len()
        invariant
            start <= i <= s@.len(),
            out@ == s@.subrange(start as int, i as int),
        decreases s.len() - i,
    {
        out.push(s[i]);
        i = i + 1;
    }
    assert(out@ == s@.skip(start as int));
    out
}

/// Removes the characters of a class from the end.
pub fn drop_end(s: &mut Vec<char>, k: CharClass)
    ensures
        final(s)@ == strip_end(old(s)@, k),
{
    let ghost goal = strip_end(s@, k);
    while s.len() > 0 && k.contains(s[s.len() - 1])
        invariant
            goal == strip_end(s@, k),
        decreases s.len(),
    {
        assert(s@.take(s@.len() - 1) == s@.drop_last());
        let _ = s.pop();
    }
}

/// Removes the characters of a class from both ends.
pub fn stripped(s: &Vec<char>, k: CharClass) -> (r: Vec<char>)
    ensures
        r@ == strip(s@, k),
{
    let mut out: Vec<char> = stripped_start(s, k);
    drop_end(&mut out, k);
    out
}

/// Whether a text holds nothing but white space.
pub open spec fn is_blank(s: Seq<char>) -> bool {
    forall|i: int| 0 <= i < s.len() ==> is_white(#[trigger] s[i])
}

/// Whether a text holds nothing but white space.
pub fn blank(s: &str) -> (r: bool)
    ensures
        r == is_blank(s@),
{
    let chars: Vec<char> = chars_of(s);
    let mut i: usize = 0;
    while i < chars.len()
        invariant
            i <= chars@.len(),
            chars@ == s@,
            forall|j: int| 0 <= j < i ==> is_white(#[trigger] chars@[j]),
        decreases chars.len() - i,
    {
        if !CharClass::White.contains(chars[i]) {
            assert(!is_white(s@[i as int]));
            return false;
        }
        i = i + 1;
    }
    true
}

/// The text is blank just when nothing is left of it without the white space around it.
pub proof fn law_blank_is_empty_when_stripped(s: Seq<char>)
    ensures
        is_blank(s) <==> strip(s, CharClass::White).len() == 0,
{
    lemma_strip_start_blank(s);
    let rest = strip_start(s, CharClass::White);
    lemma_strip_end_keeps_first(rest);
}

proof fn lemma_strip_start_blank(s: Seq<char>)
    ensures
        is_blank(s) <==> strip_start(s, CharClass::White).len() == 0,
        strip_start(s, CharClass::White).len() > 0 ==> !is_white(strip_start(s, CharClass::White)[0]),
    decreases s.len(),
{
    if s.len() > 0 {
        if is_white(s[0]) {
            lemma_strip_start_blank(s.skip(1));
            let rest = s.skip(1);
            if is_blank(rest) {
                assert forall|i: int| 0 <= i < s.len() implies is_white(#[trigger] s[i]) by {
                    if i > 0 {
                        assert(rest[i - 1] == s[i]);
                    }
                }
            }
            if is_blank(s) {
                assert forall|i: int| 0 <= i < rest.len() implies is_white(#[trigger] rest[i]) by {
                    assert(rest[i] == s[i + 1]);
                }
            }
        } else {
            assert(!is_blank(s));
        }
    }
}

proof fn lemma_strip_end_keeps_first(s: Seq<char>)
    ensures
        s.len() > 0 && !is_white(s[0]) ==> strip_end(s, CharClass::White).len() > 0,
        s.len() == 0 ==> strip_end(s, CharClass::White).len() == 0,
    decreases s.len(),
{
    if s.len() > 1 {
        assert(s.drop_last()[0] == s[0]);
        lemma_strip_end_keeps_first(s.drop_last());
    }
}

/// The digits of a number in base ten.
pub open spec fn digits(n: nat) -> Seq<char>
    decreases n,
{
    if n < 10 {
        seq![digit(n)]
    } else {
        digits(n / 10).push(digit(n % 10))
    }
}

/// The character of a digit.
pub open spec fn digit(d: nat) -> char {
    (48 + d) as char
}

fn digit_char(d: u64) -> (r: char)
    requires
        d < 10,
    ensures
        r == digit(d as nat),
{
    (48 + d as u8) as char
}

/// Writes a number in base ten.
pub fn decimal(n: u64) -> (r: String)
    ensures
        r@ == digits(n as nat),
    decreases n,
{
    if n < 10 {
        let mut out: String = String::new();
        out.push(digit_char(n));
        out
    } else {
        let mut out: String = decimal(n / 10);
        out.push(digit_char(n % 10));
        out
    }
}

/// Texts joined by a separator.
pub open spec fn joined(parts: Seq<String>, sep: Seq<char>) -> Seq<char>
    decreases parts.len(),
{
    if parts.len() == 0 {
        Seq::empty()
    } else if parts.len() == 1 {
        parts[0]@
    } else {
        joined(parts.drop_last(), sep) + sep + parts.last()@
    }
}

/// Joins texts with a separator.
pub fn join(parts: &Vec<String>, sep: &str) -> (r: String)
    ensures
        r@ == joined(parts@, sep@),
{
    let mut out: String = String::new();
    let mut i: usize = 0;
    while i < parts.len()
        invariant
            i <= parts@.len(),
            out@ == joined(parts@.take(i as int), sep@),
        decreases parts.len() - i,
    {
        if i > 0 {
            out.append(sep);
        }
        out.append(parts[i].as_str());
        proof {
            let now = parts@.take(i + 1);
            assert(now.drop_last() == parts@.take(i as int));
            assert(now.last() == parts@[i as int]);
        }
        i = i + 1;
    }
    assert(parts@.take(parts@.len() as int) == parts@);
    out
}

/// The value of a digit in base sixteen.
pub open spec fn digit_value(c: char) -> Option<nat> {
    if '0' <= c <= '9' {
        Some((c as u32 - 48) as nat)
    } else if 'a' <= c <= 'f' {
        Some((c as u32 - 87) as nat)
    } else if 'A' <= c <= 'F' {
        Some((c as u32 - 55) as nat)
    } else {
        None
    }
}

/// The value of a text of digits of a base; a text with anything else in it has none, and
/// the empty one is zero.
pub open spec fn digits_value(s: Seq<char>, base: nat) -> Option<nat>
    decreases s.len(),
{
    if s.len() == 0 {
        Some(0)
    } else {
        match (digits_value(s.drop_last(), base), digit_value(s.last())) {
            (Some(v), Some(d)) => if d < base {
                Some(v * base + d)
            } else {
                None
            },
            _ => None,
        }
    }
}

/// The 32-bit number that a text stands for: digits of the base, one at least, with or
/// without a plus sign before them.
pub open spec fn number_value(s: Seq<char>, base: nat) -> Option<u32> {
    let d = if s.len() > 0 && s[0] == '+' { s.skip(1) } else { s };
    if d.len() == 0 {
        None
    } else {
        match digits_value(d, base) {
            Some(v) => if v <= u32::MAX {
                Some(v as u32)
            } else {
                None
            },
            None => None,
        }
    }
}

fn value_of(c: char) -> (r: Option<u64>)
    ensures
        match r {
            Some(v) => digit_value(c) == Some(v as nat) && v < 16,
            None => digit_value(c) is None,
        },
{
    let u: u32 = c as u32;
    if '0' <= c && c <= '9' {
        Some((u - 48) as u64)
    } else if 'a' <= c && c <= 'f' {
        Some((u - 87) as u64)
    } else if 'A' <= c && c <= 'F' {
        Some((u - 55) as u64)
    } else {
        None
    }
}

proof fn lemma_digits_value_prefix(s: Seq<char>, n: int, base: nat)
    requires
        0 <= n <= s.len(),
        base >= 1,
    ensures
        digits_value(s.take(n), base) is None ==> digits_value(s, base) is None,
        digits_value(s.take(n), base) is Some && digits_value(s, base) is Some ==> digits_value(s.take(n), base)->0
            <= digits_value(s, base)->0,
    decreases s.len() - n,
{
    if n < s.len() {
        lemma_digits_value_prefix(s, n + 1, base);
        let next = s.take(n + 1);
        assert(next.drop_last() == s.take(n));
        if digits_value(next, base) is Some && digits_value(s.take(n), base) is Some {
            let v = digits_value(s.take(n), base)->0;
            assert(v <= v * base) by (nonlinear_arith)
                requires
                    base >= 1,
            ;
        }
    } else {
        assert(s.take(n) == s);
    }
}

/// Reads a 32-bit number in a base.
pub fn parse_number(s: &Vec<char>, base: u32) -> (r: Option<u32>)
    requires
        2 <= base <= 16,
    ensures
        r == number_value(s@, base as nat),
{
    let start: usize = if s.len() > 0 && s[0] == '+' {
        1
    } else {
        0
    };
    let ghost d = if s@.len() > 0 && s@[0] == '+' { s@.skip(1) } else { s@ };
    assert(s@.skip(start as int) == d);
    if s.len() == start {
        return None;
    }
    let mut value: u64 = 0;
    let mut i: usize = start;
    assert(d.take(0) == Seq::<char>::empty());
    while i < s.len()
        invariant
            start <= i <= s@.len(),
            d == s@.skip(start as int),
            number_value(s@, base as nat) == (match digits_value(d, base as nat) {
                Some(v) => if v <= u32::MAX {
                    Some(v as u32)
                } else {
                    None
                },
                None => None,
            }),
            2 <= base <= 16,
            value <= u32::MAX,
            digits_value(d.take(i - start), base as nat) == Some(value as nat),
        decreases s.len() - i,
    {
        let ghost next = d.take(i + 1 - start);
        proof {
            assert(next.drop_last() == d.take(i - start));
            assert(next.last() == s@[i as int]);
            lemma_digits_value_prefix(d, i + 1 - start, base as nat);
        }
        match value_of(s[i]) {
            None => {
                return None;
            },
            Some(digit) => {
                if digit >= base as u64 {
                    return None;
                }
                assert(value * base <= 0xffff_ffff * 16) by (nonlinear_arith)
                    requires
                        value <= 0xffff_ffff,
                        base <= 16,
                ;
                let grown: u64 = value * (base as u64) + digit;
                if grown > u32::MAX as u64 {
                    return None;
                }
                value = grown;
            },
        }
        i = i + 1;
    }
    assert(d.take(d.len() as int) == d);
    Some(value as u32)
}

proof fn lemma_start_of(s: Seq<char>, k: CharClass) -> (i: int)
    ensures
        0 <= i <= s.len(),
        strip_start(s, k) == s.skip(i),
        forall|j: int| 0 <= j < i ==> k.holds(#[trigger] s[j]),
        i < s.len() ==> !k.holds(s[i]),
    decreases s.len(),
{
    if s.len() > 0 && k.holds(s[0]) {
        let i = lemma_start_of(s.skip(1), k) + 1;
        assert(s.skip(1).skip(i - 1) =~= s.skip(i));
        assert forall|j: int| 0 <= j < i implies k.holds(#[trigger] s[j]) by {
            if j > 0 {
                assert(s.skip(1)[j - 1] == s[j]);
            }
        }
        if i < s.len() {
            assert(s.skip(1)[i - 1] == s[i]);
        }
        i
    } else {
        assert(s.skip(0) =~= s);
        0
    }
}

proof fn lemma_end_of(s: Seq<char>, k: CharClass) -> (n: int)
    ensures
        0 <= n <= s.len(),
        strip_end(s, k) == s.take(n),
        forall|j: int| n <= j < s.len() ==> k.holds(#[trigger] s[j]),
        n > 0 ==> !k.holds(s[n - 1]),
    decreases s.len(),
{
    if s.len() > 0 && k.holds(s.last()) {
        let n = lemma_end_of(s.drop_last(), k);
        assert(s.drop_last().take(n) =~= s.take(n));
        assert forall|j: int| n <= j < s.len() implies k.holds(#[trigger] s[j]) by {
            if j < s.len() - 1 {
                assert(s.drop_last()[j] == s[j]);
            }
        }
        if n > 0 {
            assert(s.drop_last()[n - 1] == s[n - 1]);
        }
        n
    } else {
        assert(s.take(s.len() as int) =~= s);
        s.len() as int
    }
}

/// Stripping cuts off the characters of the class at both ends, all of them, and nothing else.
pub proof fn law_strip_cuts_both_ends(s: Seq<char>, k: CharClass)
    ensures
        exists|i: int, j: int|
            #![trigger s.subrange(i, j)]
            0 <= i <= j <= s.len() && strip(s, k) == s.subrange(i, j) && (forall|x: int|
                0 <= x < i || j <= x < s.len() ==> k.holds(#[trigger] s[x])) && (i < j ==> !k.holds(s[i]) && !k.holds(
                s[j - 1],
            )),
        strip(strip(s, k), k) == strip(s, k),
{
    let i = lemma_start_of(s, k);
    let rest = s.skip(i);
    let n = lemma_end_of(rest, k);
    let j = i + n;
    assert(rest.take(n) =~= s.subrange(i, j));
    assert forall|x: int| 0 <= x < i || j <= x < s.len() implies k.holds(#[trigger] s[x]) by {
        if x >= j {
            assert(rest[x - i] == s[x]);
        }
    }
    let out = s.subrange(i, j);
    if i < j {
        assert(rest[0] == s[i]);
        assert(rest[n - 1] == s[j - 1]);
        assert(out[0] == s[i] && out.last() == s[j - 1]);
        assert(!k.holds(rest[0])) by {
            assert(i < s.len());
        }
    }
    assert(strip_start(out, k) == out);
    assert(strip_end(out, k) == out);
}

/// Letters, digits and the marks of names are never white space; the space, the tab and the ends
/// of lines are.
pub proof fn law_white_space_is_apart(c: char)
    ensures
        '!' <= c <= '~' ==> !is_white(c),
        c == ' ' || c == '\t' || c == '\n' || c == '\r' ==> is_white(c),
{
}

/// The digits of a number stand for it, and no number but zero starts with a zero.
pub proof fn law_digits_stand_for_the_number(n: nat)
    ensures
        digits_value(digits(n), 10) == Some(n),
        digits(n).len() > 0,
        n > 0 ==> digits(n)[0] != '0',
        forall|i: int| 0 <= i < digits(n).len() ==> '0' <= #[trigger] digits(n)[i] <= '9',
    decreases n,
{
    if n < 10 {
        assert(digits(n).drop_last() =~= Seq::<char>::empty());
        reveal_with_fuel(digits_value, 2);
    } else {
        law_digits_stand_for_the_number(n / 10);
        let s = digits(n);
        let high = digits(n / 10);
        assert(s.drop_last() =~= high);
        assert(s.last() == digit(n % 10));
        assert(s[0] == high[0]);
        assert forall|i: int| 0 <= i < s.len() implies '0' <= #[trigger] s[i] <= '9' by {
            if i < high.len() {
                assert(s[i] == high[i]);
            }
        }
    }
}

/// A number that was written is read back, with a plus sign before it too; beyond 32 bits
/// nothing is.
pub proof fn law_written_numbers_are_read(n: nat)
    ensures
        number_value(digits(n), 10) == (if n <= u32::MAX { Some(n as u32) } else { None }),
        number_value(seq!['+'] + digits(n), 10) == number_value(digits(n), 10),
        number_value(Seq::empty(), 10) is None,
{
    law_digits_stand_for_the_number(n);
    assert(digits(n)[0] <= '9');
    assert((seq!['+'] + digits(n)).skip(1) =~= digits(n));
}

/// A digit more multiplies the value by the base and adds its own; a character that is no digit
/// of the base leaves no value. The letters go on from nine, in either case.
pub proof fn law_digits_count_in_their_base(s: Seq<char>, c: char, base: nat, k: nat)
    ensures
        digits_value(s, base) matches Some(v) ==> (digit_value(c) matches Some(d) ==> d < base ==> digits_value(
            s.push(c),
            base,
        ) == Some(v * base + d)),
        digit_value(c) is None ==> digits_value(s.push(c), base) is None,
        digit_value(c) matches Some(d) ==> d < 16 && (d >= base ==> digits_value(s.push(c), base) is None),
        digits_value(s, base) is None ==> digits_value(s.push(c), base) is None,
        k < 10 ==> digit_value(digit(k)) == Some(k),
        k < 6 ==> digit_value((97 + k) as char) == Some(10 + k) && digit_value((65 + k) as char) == Some(10 + k),
{
    assert(s.push(c).drop_last() =~= s);
}

/// Joined texts are those of the first part and of the rest with the separator between them.
pub proof fn law_joining_goes_on(a: Seq<String>, b: Seq<String>, sep: Seq<char>)
    requires
        a.len() > 0,
        b.len() > 0,
    ensures
        joined(a + b, sep) == joined(a, sep) + sep + joined(b, sep),
        a.len() == 1 ==> joined(a, sep) == a[0]@,
    decreases b.len(),
{
    let all = a + b;
    assert(all.drop_last() =~= a + b.drop_last());
    assert(all.last() == b.last());
    if b.len() == 1 {
        assert(a + b.drop_last() =~= a);
        assert(b.last() == b[0]);
    } else {
        law_joining_goes_on(a, b.drop_last(), sep);
        assert(joined(all, sep) =~= joined(a, sep) + sep + joined(b, sep));
    }
}

/// What stands between characters of the class is what is left when it neither begins nor ends
/// with one.
pub proof fn law_strip_keeps_what_is_between(lead: Seq<char>, core: Seq<char>, trail: Seq<char>, k: CharClass)
    requires
        forall|i: int| 0 <= i < lead.len() ==> k.holds(#[trigger] lead[i]),
        forall|i: int| 0 <= i < trail.len() ==> k.holds(#[trigger] trail[i]),
        core.len() > 0 ==> !k.holds(core[0]) && !k.holds(core.last()),
    ensures
        strip(lead + core + trail, k) == core,
{
    let s = lead + core + trail;
    let i = lemma_start_of(s, k);
    let rest = s.skip(i);
    let n = lemma_end_of(rest, k);
    if core.len() > 0 {
        assert(s[lead.len() as int] == core[0]);
        assert(s[lead.len() + core.len() - 1] == core.last());
        if i < lead.len() {
            assert(s[i] == lead[i]);
        }
        assert(i == lead.len());
        if n > core.len() {
            assert(rest[n - 1] == trail[n - 1 - core.len()]);
        }
        assert(rest[core.len() - 1] == core.last());
        assert(n == core.len());
        assert(rest.take(n) =~= core);
    } else {
        if i < s.len() {
            assert(i < lead.len() ==> s[i] == lead[i]);
            assert(i >= lead.len() ==> s[i] == trail[i - lead.len()]);
        }
        assert(rest.take(n) =~= core);
    }
}

/// The fixed spaces of print are white space, the zero-width ones are not; nor are the letters of
/// other scripts.
pub proof fn law_white_space_of_print(c: char)
    ensures
        '\u{2000}' <= c <= '\u{200a}' ==> is_white(c),
        '\u{200b}' <= c <= '\u{200f}' ==> !is_white(c),
        '\u{a1}' <= c <= '\u{167f}' ==> !is_white(c),
        c > '\u{3000}' ==> !is_white(c),
        c < '\u{20}' ==> (is_white(c) <==> '\u{9}' <= c <= '\u{d}'),
        '\u{7f}' <= c <= '\u{a0}' ==> (is_white(c) <==> c == '\u{85}' || c == '\u{a0}'),
        c == '\u{1680}' || c == '\u{3000}' || c == '\u{202f}' || c == '\u{205f}' ==> is_white(c),
        '\u{2028}' <= c <= '\u{2029}' ==> is_white(c),
{
}

/// Only the ten digits and six letters in either case are digits; small letters and capitals count
/// alike, and no two digits otherwise.
pub proof fn law_digits_are_told_apart(c: char, d: char)
    ensures
        digit_value(c) is Some <==> '0' <= c <= '9' || 'a' <= c <= 'f' || 'A' <= c <= 'F',
        digit_value(c) is Some && digit_value(c) == digit_value(d) ==> c == d || (c as u32) + 32 == d as u32 || c as u32
            == (d as u32) + 32,
        'a' <= c <= 'f' && (d as u32) + 32 == c as u32 ==> digit_value(c) == digit_value(d),
        ('0' <= c < d <= '9' || 'a' <= c < d <= 'f') ==> digit_value(c)->0 + (d as u32 - c as u32) == digit_value(d)->0,
{
}

/// A number that was read is that of its digits, with a plus sign left aside; a sign alone, a minus
/// sign or any other character gives none.
pub proof fn law_numbers_have_digits_only(s: Seq<char>, base: nat)
    ensures
        number_value(s, base) matches Some(n) ==> s.len() > 0 && (digits_value(s, base) == Some(n as nat) || (s[0] == '+'
            && s.len() > 1 && digits_value(s.skip(1), base) == Some(n as nat))),
        s.len() == 1 && s[0] == '+' ==> number_value(s, base) is None,
        s.len() > 0 && s[0] == '-' ==> number_value(s, base) is None,
{
    if s.len() > 0 && s[0] == '-' {
        lemma_value_has_digits(s, base, 0);
    }
}

proof fn lemma_value_has_digits(s: Seq<char>, base: nat, i: int)
    requires
        0 <= i < s.len(),
    ensures
        digits_value(s, base) is Some ==> digit_value(s[i]) is Some,
    decreases s.len(),
{
    if i < s.len() - 1 {
        lemma_value_has_digits(s.drop_last(), base, i);
        assert(s.drop_last()[i] == s[i]);
    }
}

} // verus!
