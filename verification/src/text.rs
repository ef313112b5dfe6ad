use vstd::prelude::*;

verus! {

/// Appending one character to a `String`: afterwards the string holds what
/// it held before, followed by that character. This states `String::push` of
/// the standard library, whose body is not verified here.
pub assume_specification[ String::push ](s: &mut String, c: char)
    ensures
        final(s)@ == old(s)@.push(c),
;

/// Whether a character separates fields: the characters that Unicode gives
/// the property White_Space.
pub open spec fn is_space(c: char) -> bool {
    let u = c as u32;
    ||| 0x09 <= u <= 0x0D
    ||| u == 0x20
    ||| u == 0x85
    ||| u == 0xA0
    ||| u == 0x1680
    ||| 0x2000 <= u <= 0x200A
    ||| u == 0x2028
    ||| u == 0x2029
    ||| u == 0x202F
    ||| u == 0x205F
    ||| u == 0x3000
}

/// The first place at or after `i` that holds no separator, or the end.
pub open spec fn skip_spaces(s: Seq<char>, i: int) -> int
    decreases s.len() - i,
{
    if 0 <= i < s.len() && is_space(s[i]) {
        skip_spaces(s, i + 1)
    } else {
        i
    }
}

/// The first place at or after `i` that holds a separator, or the end.
pub open spec fn skip_word(s: Seq<char>, i: int) -> int
    decreases s.len() - i,
{
    if 0 <= i < s.len() && !is_space(s[i]) {
        skip_word(s, i + 1)
    } else {
        i
    }
}

/// The place just behind the last character before `i` that is no
/// separator, or the start.
pub open spec fn trim_end(s: Seq<char>, i: int) -> int
    decreases i,
{
    if 0 < i <= s.len() && is_space(s[i - 1]) {
        trim_end(s, i - 1)
    } else {
        i
    }
}

/// The text without the separators at its start and at its end.
pub open spec fn trimmed(s: Seq<char>) -> Seq<char> {
    let from = skip_spaces(s, 0);
    if from >= s.len() {
        Seq::empty()
    } else {
        s.subrange(from, trim_end(s, s.len() as int))
    }
}

/// Whether a character separates fields.
pub fn is_whitespace(c: char) -> (space: bool)
    ensures
        space == is_space(c),
{
    let u: u32 = c as u32;
    (0x09 <= u && u <= 0x0D) || u == 0x20 || u == 0x85 || u == 0xA0 || u == 0x1680 || (0x2000 <= u
        && u <= 0x200A) || u == 0x2028 || u == 0x2029 || u == 0x202F || u == 0x205F || u == 0x3000
}

/// The characters of a text, one by one.
pub fn chars_of(s: &str) -> (chars: Vec<char>)
    ensures
        chars@ == s@,
{
    let mut chars: Vec<char> = Vec::new();
    for c in it: s.chars()
        invariant
            chars@ == it.seq().take(it.index()),
            it.seq() == s@,
    {
        chars.push(c);
    }
    chars
}

/// The text made of the characters from `from` up to `to`.
pub fn string_of(chars: &Vec<char>, from: usize, to: usize) -> (s: String)
    requires
        from <= to <= chars@.len(),
    ensures
        s@ == chars@.subrange(from as int, to as int),
{
    let mut s = String::new();
    let mut k: usize = from;
    while k < to
        invariant
            from <= k <= to <= chars@.len(),
            s@ == chars@.subrange(from as int, k as int),
        decreases to - k,
    {
        s.push(chars[k]);
        k += 1;
        assert(chars@.subrange(from as int, k as int) =~= chars@.subrange(
            from as int,
            k as int - 1,
        ).push(chars@[k as int - 1]));
    }
    assert(chars@.subrange(from as int, from as int) =~= Seq::<char>::empty());
    s
}

/// Steps over separators.
pub fn scan_spaces(chars: &Vec<char>, from: usize) -> (at: usize)
    requires
        from <= chars@.len(),
    ensures
        at == skip_spaces(chars@, from as int),
        from <= at <= chars@.len(),
{
    let mut at: usize = from;
    while at < chars.len() && is_whitespace(chars[at])
        invariant
            from <= at <= chars@.len(),
            skip_spaces(chars@, from as int) == skip_spaces(chars@, at as int),
        decreases chars@.len() - at,
    {
        at += 1;
    }
    at
}

/// Steps over what is no separator.
pub fn scan_word(chars: &Vec<char>, from: usize) -> (at: usize)
    requires
        from <= chars@.len(),
    ensures
        at == skip_word(chars@, from as int),
        from <= at <= chars@.len(),
{
    let mut at: usize = from;
    while at < chars.len() && !is_whitespace(chars[at])
        invariant
            from <= at <= chars@.len(),
            skip_word(chars@, from as int) == skip_word(chars@, at as int),
        decreases chars@.len() - at,
    {
        at += 1;
    }
    at
}

/// The text without the separators at its start and at its end.
pub fn trim(s: &str) -> (t: String)
    ensures
        t@ == trimmed(s@),
{
    let chars = chars_of(s);
    let from = scan_spaces(&chars, 0);
    if from >= chars.len() {
        return String::new();
    }
    let mut to: usize = chars.len();
    while to > 0 && is_whitespace(chars[to - 1])
        invariant
            to <= chars@.len(),
            trim_end(chars@, chars@.len() as int) == trim_end(chars@, to as int),
            from < chars@.len(),
            from == skip_spaces(chars@, 0),
        decreases to,
    {
        to -= 1;
    }
    proof {
        lemma_no_space_at_skip(chars@, 0);
        lemma_trim_end_after(chars@, from as int, chars@.len() as int);
    }
    string_of(&chars, from, to)
}

/// Where stepping over separators stops before the end, no separator stands.
pub proof fn lemma_no_space_at_skip(s: Seq<char>, i: int)
    requires
        0 <= i <= s.len(),
        skip_spaces(s, i) < s.len(),
    ensures
        !is_space(s[skip_spaces(s, i)]),
    decreases s.len() - i,
{
    if i < s.len() && is_space(s[i]) {
        lemma_no_space_at_skip(s, i + 1);
    }
}

/// Trimming the end never goes back over a character that is no separator.
pub proof fn lemma_trim_end_after(s: Seq<char>, k: int, i: int)
    requires
        0 <= k < i <= s.len(),
        !is_space(s[k]),
    ensures
        k < trim_end(s, i),
    decreases i,
{
    if is_space(s[i - 1]) {
        lemma_trim_end_after(s, k, i - 1);
    }
}

/// Whether `s` begins with `prefix`.
pub fn starts_with(s: &Vec<char>, prefix: &Vec<char>) -> (yes: bool)
    ensures
        yes == prefix@.is_prefix_of(s@),
{
    if prefix.len() > s.len() {
        return false;
    }
    let mut k: usize = 0;
    while k < prefix.len()
        invariant
            k <= prefix@.len() <= s@.len(),
            forall|i: int| 0 <= i < k ==> prefix@[i] == s@[i],
        decreases prefix@.len() - k,
    {
        if prefix[k] != s[k] {
            return false;
        }
        k += 1;
    }
    assert(prefix@ =~= s@.subrange(0, prefix@.len() as int));
    true
}

} // verus!
