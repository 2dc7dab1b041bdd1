//! Segment path templates and the placeholders in them.
//!
//! A template is a path with placeholders. A placeholder for a key stands in
//! one of two forms: bare, `$Key$`, or padded, `$Key%0Nd$` with one digit `N`
//! for the width. Resolving a key puts a value in place of every bare
//! placeholder, and then in place of the first padded one that is left, the
//! value there filled up with zeros on the left to `N` characters.

use vstd::prelude::*;

verus! {

/// `String::push` of the standard library: not proved here, the contract says
/// that it puts the character at the end of the text.
pub assume_specification[ String::push ](text: &mut String, ch: char)
    ensures
        final(text)@ == old(text)@.push(ch),
;

/// `pat` stands in `s` at `i`.
pub open spec fn starts_at(s: Seq<char>, pat: Seq<char>, i: int) -> bool {
    0 <= i && i + pat.len() <= s.len() && s.subrange(i, i + pat.len()) == pat
}

/// `s` from `from` on, with `with` in place of every occurrence of `pat`,
/// taken from the left; an occurrence that starts inside one already taken
/// does not count. An empty `pat` occurs nowhere.
pub open spec fn replaced(s: Seq<char>, pat: Seq<char>, with: Seq<char>, from: int) -> Seq<char>
    decreases (if from < s.len() { s.len() - from } else { 0 }),
{
    if from < 0 || from >= s.len() {
        Seq::empty()
    } else if pat.len() > 0 && starts_at(s, pat, from) {
        with + replaced(s, pat, with, from + pat.len())
    } else {
        seq![s[from]] + replaced(s, pat, with, from + 1)
    }
}

/// The value of a decimal digit, or -1 of any other character.
pub open spec fn digit_value(c: char) -> int {
    if c == '0' {
        0
    } else if c == '1' {
        1
    } else if c == '2' {
        2
    } else if c == '3' {
        3
    } else if c == '4' {
        4
    } else if c == '5' {
        5
    } else if c == '6' {
        6
    } else if c == '7' {
        7
    } else if c == '8' {
        8
    } else if c == '9' {
        9
    } else {
        -1
    }
}

/// The digit that writes `d`, for `d` from 0 to 9.
pub open spec fn digit_char(d: int) -> char {
    if d == 0 {
        '0'
    } else if d == 1 {
        '1'
    } else if d == 2 {
        '2'
    } else if d == 3 {
        '3'
    } else if d == 4 {
        '4'
    } else if d == 5 {
        '5'
    } else if d == 6 {
        '6'
    } else if d == 7 {
        '7'
    } else if d == 8 {
        '8'
    } else {
        '9'
    }
}

/// `n` written in decimal digits, without leading zeros.
pub open spec fn decimal(n: nat) -> Seq<char>
    decreases n,
{
    if n < 10 {
        seq![digit_char(n as int)]
    } else {
        decimal(n / 10).push(digit_char((n % 10) as int))
    }
}

/// The bare placeholder of `key`: `$Key$`.
pub open spec fn bare(key: Seq<char>) -> Seq<char> {
    seq!['$'] + key + seq!['$']
}

/// The characters that a padded placeholder of `key` takes: `$Key%0Nd$`.
pub open spec fn padded_len(key: Seq<char>) -> int {
    (key.len() + 6) as int
}

/// A padded placeholder of `key` stands in `s` at `i`.
pub open spec fn padded_at(s: Seq<char>, key: Seq<char>, i: int) -> bool {
    &&& 0 <= i
    &&& i + padded_len(key) <= s.len()
    &&& s[i] == '$'
    &&& s.subrange(i + 1, i + 1 + key.len()) == key
    &&& s[i + key.len() + 1] == '%'
    &&& s[i + key.len() + 2] == '0'
    &&& digit_value(s[i + key.len() + 3]) >= 0
    &&& s[i + key.len() + 4] == 'd'
    &&& s[i + key.len() + 5] == '$'
}

/// Where the first padded placeholder of `key` at or after `from` stands.
pub open spec fn first_padded(s: Seq<char>, key: Seq<char>, from: int) -> Option<int>
    decreases (if from < s.len() { s.len() - from } else { 0 }),
{
    if from < 0 || from >= s.len() {
        None
    } else if padded_at(s, key, from) {
        Some(from)
    } else {
        first_padded(s, key, from + 1)
    }
}

/// `value`, with zeros before it where it has fewer than `width` characters.
pub open spec fn zero_padded(value: Seq<char>, width: int) -> Seq<char> {
    if value.len() < width {
        Seq::new((width - value.len()) as nat, |i: int| '0') + value
    } else {
        value
    }
}

/// `s` with the padded `value` in place of the first padded placeholder of
/// `key`, if there is one.
pub open spec fn spliced(s: Seq<char>, key: Seq<char>, value: Seq<char>) -> Seq<char> {
    match first_padded(s, key, 0) {
        None => s,
        Some(i) => s.take(i) + zero_padded(value, digit_value(s[i + key.len() + 3])) + s.skip(
            i + padded_len(key),
        ),
    }
}

/// The keys that a template may hold placeholders for.
pub open spec fn known_key(key: Seq<char>) -> bool {
    key == "RepresentationID"@ || key == "Number"@ || key == "Time"@ || key == "Bandwidth"@
}

/// `template` with `value` put in for `key`: in every bare placeholder first,
/// then in the first padded placeholder of what that gave. A key that is not
/// known changes nothing.
pub open spec fn resolved(template: Seq<char>, key: Seq<char>, value: Seq<char>) -> Seq<char> {
    if known_key(key) {
        spliced(replaced(template, bare(key), value, 0), key, value)
    } else {
        template
    }
}

/// `s` holds a placeholder of `key`, bare or padded.
pub open spec fn has_placeholder(s: Seq<char>, key: Seq<char>) -> bool {
    (exists|i: int| starts_at(s, bare(key), i)) || (exists|i: int| padded_at(s, key, i))
}

/// Where `pat` stands nowhere from `from` on, replacing changes nothing.
pub proof fn lemma_replaced_without_match(
    s: Seq<char>,
    pat: Seq<char>,
    with: Seq<char>,
    from: int,
)
    requires
        0 <= from <= s.len(),
        forall|i: int| from <= i ==> !starts_at(s, pat, i),
    ensures
        replaced(s, pat, with, from) == s.skip(from),
    decreases s.len() - from,
{
    if from < s.len() {
        lemma_replaced_without_match(s, pat, with, from + 1);
        assert(s.skip(from) =~= seq![s[from]] + s.skip(from + 1));
    } else {
        assert(s.skip(from) =~= Seq::<char>::empty());
    }
}

/// `first_padded` finds the leftmost padded placeholder, or none where there
/// is none.
pub proof fn lemma_first_padded(s: Seq<char>, key: Seq<char>, from: int)
    requires
        0 <= from,
    ensures
        match first_padded(s, key, from) {
            None => forall|i: int| from <= i ==> !padded_at(s, key, i),
            Some(at) => from <= at && padded_at(s, key, at) && forall|i: int|
                from <= i < at ==> !padded_at(s, key, i),
        },
    decreases (if from < s.len() { s.len() - from } else { 0 }),
{
    if from < s.len() && !padded_at(s, key, from) {
        lemma_first_padded(s, key, from + 1);
    }
}

/// A template without a placeholder of `key` resolves to itself.
pub proof fn lemma_resolved_without_placeholder(
    template: Seq<char>,
    key: Seq<char>,
    value: Seq<char>,
)
    requires
        !has_placeholder(template, key),
    ensures
        resolved(template, key, value) == template,
{
    if known_key(key) {
        lemma_replaced_without_match(template, bare(key), value, 0);
        assert(template.skip(0) =~= template);
        lemma_first_padded(template, key, 0);
    }
}

/// Resolving a key a second time with the same value changes nothing, once
/// the first time has left no placeholder of that key.
pub proof fn lemma_resolve_twice(template: Seq<char>, key: Seq<char>, value: Seq<char>)
    requires
        !has_placeholder(resolved(template, key, value), key),
    ensures
        resolved(resolved(template, key, value), key, value) == resolved(template, key, value),
{
    lemma_resolved_without_placeholder(resolved(template, key, value), key, value);
}

/// The characters of `text`, one by one.
pub fn chars_of(text: &str) -> (chars: Vec<char>)
    ensures
        chars@ == text@,
{
    let mut chars: Vec<char> = Vec::new();
    for c in it: text.chars()
        invariant
            it.seq() == text@,
            chars@ == it.seq().take(it.index()),
    {
        chars.push(c);
        assert(chars@ =~= it.seq().take(it.index() + 1));
    }
    assert(chars@ =~= text@);
    chars
}

/// The text made of `chars`.
pub fn text_of(chars: &Vec<char>) -> (text: String)
    ensures
        text@ == chars@,
{
    let mut text = String::new();
    let mut i: usize = 0;
    while i < chars.len()
        invariant
            i <= chars@.len(),
            text@ == chars@.take(i as int),
        decreases chars@.len() - i,
    {
        text.push(chars[i]);
        i += 1;
        assert(text@ =~= chars@.take(i as int));
    }
    assert(chars@.take(i as int) =~= chars@);
    text
}

/// Puts `more` at the end of `out`.
pub fn append(out: &mut Vec<char>, more: &Vec<char>)
    ensures
        final(out)@ == old(out)@ + more@,
{
    let mut i: usize = 0;
    while i < more.len()
        invariant
            i <= more@.len(),
            out@ == old(out)@ + more@.take(i as int),
        decreases more@.len() - i,
    {
        out.push(more[i]);
        i += 1;
        assert(out@ =~= old(out)@ + more@.take(i as int));
    }
    assert(more@.take(i as int) =~= more@);
}

/// Whether `pat` stands in `s` at `i`.
pub fn matches_at(s: &Vec<char>, pat: &Vec<char>, i: usize) -> (found: bool)
    ensures
        found == starts_at(s@, pat@, i as int),
{
    if i > s.len() || pat.len() > s.len() - i {
        return false;
    }
    let mut k: usize = 0;
    while k < pat.len()
        invariant
            k <= pat@.len(),
            i + pat@.len() <= s@.len() <= usize::MAX,
            forall|j: int| 0 <= j < k ==> s@[i + j] == pat@[j],
        decreases pat@.len() - k,
    {
        if s[i + k] != pat[k] {
            assert(s@.subrange(i as int, i + pat@.len())[k as int] != pat@[k as int]);
            return false;
        }
        k += 1;
    }
    assert(s@.subrange(i as int, i + pat@.len()) =~= pat@);
    true
}

/// `s` with `with` in place of every occurrence of `pat`.
pub fn replace_all(s: &Vec<char>, pat: &Vec<char>, with: &Vec<char>) -> (out: Vec<char>)
    ensures
        out@ == replaced(s@, pat@, with@, 0),
{
    let mut out: Vec<char> = Vec::new();
    let mut i: usize = 0;
    while i < s.len()
        invariant
            i <= s@.len(),
            out@ + replaced(s@, pat@, with@, i as int) == replaced(s@, pat@, with@, 0),
        decreases s@.len() - i,
    {
        let ghost before = out@;
        if pat.len() > 0 && matches_at(s, pat, i) {
            append(&mut out, with);
            assert(out@ + replaced(s@, pat@, with@, i + pat@.len()) =~= before + replaced(
                s@,
                pat@,
                with@,
                i as int,
            ));
            i += pat.len();
        } else {
            out.push(s[i]);
            assert(out@ + replaced(s@, pat@, with@, i + 1) =~= before + replaced(
                s@,
                pat@,
                with@,
                i as int,
            ));
            i += 1;
        }
    }
    assert(out@ + Seq::<char>::empty() =~= out@);
    out
}

/// The value of a decimal digit, if `c` is one.
pub fn digit_of(c: char) -> (value: Option<usize>)
    ensures
        value is Some <==> digit_value(c) >= 0,
        value matches Some(v) ==> v == digit_value(c),
{
    match c {
        '0' => Some(0),
        '1' => Some(1),
        '2' => Some(2),
        '3' => Some(3),
        '4' => Some(4),
        '5' => Some(5),
        '6' => Some(6),
        '7' => Some(7),
        '8' => Some(8),
        '9' => Some(9),
        _ => None,
    }
}

/// Whether a padded placeholder of `key` stands in `s` at `i`, and with what
/// width.
pub fn padded_width_at(s: &Vec<char>, key: &Vec<char>, i: usize) -> (width: Option<usize>)
    ensures
        width is Some <==> padded_at(s@, key@, i as int),
        width matches Some(w) ==> w == digit_value(s@[i + key@.len() + 3]),
{
    if i > s.len() || s.len() - i < 6 || key.len() > s.len() - i - 6 {
        return None;
    }
    let k: usize = key.len();
    if s[i] != '$' || !matches_at(s, key, i + 1) {
        return None;
    }
    if s[i + k + 1] != '%' || s[i + k + 2] != '0' || s[i + k + 4] != 'd' || s[i + k + 5] != '$' {
        return None;
    }
    digit_of(s[i + k + 3])
}

/// `s` with the padded `value` in place of the first padded placeholder of
/// `key`, if there is one.
pub fn splice_padded(s: &Vec<char>, key: &Vec<char>, value: &Vec<char>) -> (out: Vec<char>)
    ensures
        out@ == spliced(s@, key@, value@),
{
    let mut i: usize = 0;
    while i < s.len()
        invariant
            i <= s@.len(),
            first_padded(s@, key@, 0) == first_padded(s@, key@, i as int),
        decreases s@.len() - i,
    {
        match padded_width_at(s, key, i) {
            Some(width) => {
                let mut out: Vec<char> = Vec::new();
                let mut j: usize = 0;
                while j < i
                    invariant
                        j <= i <= s@.len(),
                        out@ == s@.take(j as int),
                    decreases i - j,
                {
                    out.push(s[j]);
                    j += 1;
                    assert(out@ =~= s@.take(j as int));
                }
                let mut zeros: usize = value.len();
                while zeros < width
                    invariant
                        value@.len() <= zeros,
                        zeros <= width || zeros == value@.len(),
                        out@ == s@.take(i as int) + Seq::new(
                            (zeros - value@.len()) as nat,
                            |n: int| '0',
                        ),
                    decreases width - zeros,
                {
                    out.push('0');
                    zeros += 1;
                    assert(out@ =~= s@.take(i as int) + Seq::new(
                        (zeros - value@.len()) as nat,
                        |n: int| '0',
                    ));
                }
                let ghost padded = zero_padded(value@, width as int);
                append(&mut out, value);
                assert(out@ =~= s@.take(i as int) + padded);
                let mut j: usize = i + key.len() + 6;
                while j < s.len()
                    invariant
                        i + padded_len(key@) <= j <= s@.len(),
                        out@ == s@.take(i as int) + padded + s@.subrange(
                            i + padded_len(key@),
                            j as int,
                        ),
                    decreases s@.len() - j,
                {
                    out.push(s[j]);
                    j += 1;
                    assert(out@ =~= s@.take(i as int) + padded + s@.subrange(
                        i + padded_len(key@),
                        j as int,
                    ));
                }
                assert(s@.subrange(i + padded_len(key@), j as int) =~= s@.skip(
                    i + padded_len(key@),
                ));
                return out;
            },
            None => {
                i += 1;
            },
        }
    }
    let mut out: Vec<char> = Vec::new();
    append(&mut out, s);
    assert(out@ =~= s@);
    out
}

/// Writes `n` in decimal digits at the end of `out`.
pub fn push_decimal(out: &mut Vec<char>, n: usize)
    ensures
        final(out)@ == old(out)@ + decimal(n as nat),
    decreases n,
{
    if n >= 10 {
        push_decimal(out, n / 10);
    }
    let digit: char = match n % 10 {
        0 => '0',
        1 => '1',
        2 => '2',
        3 => '3',
        4 => '4',
        5 => '5',
        6 => '6',
        7 => '7',
        8 => '8',
        _ => '9',
    };
    out.push(digit);
    assert(out@ =~= old(out)@ + decimal(n as nat));
}

/// Whether `a` and `b` hold the same characters.
pub fn same_chars(a: &Vec<char>, b: &Vec<char>) -> (same: bool)
    ensures
        same == (a@ == b@),
{
    if a.len() != b.len() {
        return false;
    }
    let same = matches_at(a, b, 0);
    assert(a@.subrange(0, b@.len() as int) =~= a@);
    same
}

/// Whether `key` is one that a template may hold placeholders for.
pub fn is_known_key(key: &Vec<char>) -> (known: bool)
    ensures
        known == known_key(key@),
{
    same_chars(key, &chars_of("RepresentationID")) || same_chars(key, &chars_of("Number"))
        || same_chars(key, &chars_of("Time")) || same_chars(key, &chars_of("Bandwidth"))
}

/// Puts the value `params.1` in for the key `params.0` in `template`: in
/// every bare placeholder, and then in the first padded one that is left.
pub fn resolve_url_template(template: &str, params: (&str, String)) -> (result: String)
    ensures
        result@ == resolved(template@, params.0@, params.1@),
{
    let key = chars_of(params.0);
    let s = chars_of(template);
    if !is_known_key(&key) {
        return text_of(&s);
    }
    let value = chars_of(params.1.as_str());
    let mut ident: Vec<char> = Vec::new();
    ident.push('$');
    append(&mut ident, &key);
    ident.push('$');
    assert(ident@ =~= bare(key@));
    let first = replace_all(&s, &ident, &value);
    let second = splice_padded(&first, &key, &value);
    text_of(&second)
}

} // verus!
