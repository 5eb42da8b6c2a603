//! Text handling over sequences of characters: trimming, splitting,
//! searching, replacing, joining and decimal rendering.
use vstd::prelude::*;

verus! {

/// Appending one character to the end of a `String`, as `String::push` documents it.
pub assume_specification[ std::string::String::push ](s: &mut std::string::String, c: char)
    ensures
        final(s)@ == old(s)@.push(c),
;

// ---------------------------------------------------------------------------
// Characters

/// The characters with the Unicode `White_Space` property.
pub open spec fn is_white_space(c: char) -> bool {
    let u = c as u32;
    ||| 0x9 <= u <= 0xd
    ||| u == 0x20
    ||| u == 0x85
    ||| u == 0xa0
    ||| u == 0x1680
    ||| 0x2000 <= u <= 0x200a
    ||| u == 0x2028
    ||| u == 0x2029
    ||| u == 0x202f
    ||| u == 0x205f
    ||| u == 0x3000
}

/// Whether `c` has the Unicode `White_Space` property.
pub fn is_whitespace(c: char) -> (b: bool)
    ensures
        b == is_white_space(c),
{
    let u: u32 = c as u32;
    (0x9 <= u && u <= 0xd) || u == 0x20 || u == 0x85 || u == 0xa0 || u == 0x1680 || (0x2000 <= u
        && u <= 0x200a) || u == 0x2028 || u == 0x2029 || u == 0x202f || u == 0x205f || u == 0x3000
}

/// ASCII letters and digits.
pub open spec fn is_ascii_alnum(c: char) -> bool {
    ||| 'a' <= c <= 'z'
    ||| 'A' <= c <= 'Z'
    ||| '0' <= c <= '9'
}

/// Whether `c` is an ASCII letter or digit.
pub fn is_ascii_alphanumeric(c: char) -> (b: bool)
    ensures
        b == is_ascii_alnum(c),
{
    ('a' <= c && c <= 'z') || ('A' <= c && c <= 'Z') || ('0' <= c && c <= '9')
}

/// The ASCII lower case of one character; every other character is itself.
pub open spec fn lower_char(c: char) -> char {
    if 'A' <= c <= 'Z' {
        ((c as u8) + 32) as u8 as char
    } else {
        c
    }
}

/// The ASCII lower case of one character.
pub fn to_lower_char(c: char) -> (r: char)
    ensures
        r == lower_char(c),
{
    if 'A' <= c && c <= 'Z' {
        let b: u8 = c as u8;
        (b + 32) as char
    } else {
        c
    }
}

/// The set of characters that a trim removes.
#[derive(Clone, Copy)]
pub enum CharClass {
    /// Every character with the `White_Space` property.
    Whitespace,
    /// One character.
    One(char),
    /// Either of two characters.
    Two(char, char),
}

impl CharClass {
    /// Whether the class holds `c`.
    pub open spec fn has(self, c: char) -> bool {
        match self {
            CharClass::Whitespace => is_white_space(c),
            CharClass::One(a) => c == a,
            CharClass::Two(a, b) => c == a || c == b,
        }
    }

    /// Whether the class holds `c`.
    pub fn holds(self, c: char) -> (b: bool)
        ensures
            b == self.has(c),
    {
        match self {
            CharClass::Whitespace => is_whitespace(c),
            CharClass::One(a) => c == a,
            CharClass::Two(a, b) => c == a || c == b,
        }
    }
}

// ---------------------------------------------------------------------------
// Strings and character vectors

/// The characters of a string, in order.
pub fn chars_of(s: &str) -> (v: Vec<char>)
    ensures
        v@ == s@,
{
    let mut v: Vec<char> = Vec::new();
    for c in it: s.chars()
        invariant
            it.seq() == s@,
            v@ == it.seq().take(it.index()),
    {
        v.push(c);
        assert(v@ =~= it.seq().take(it.index() + 1));
    }
    assert(v@ =~= s@);
    v
}

/// The string made of the characters at `from..to`.
pub fn string_of(v: &Vec<char>, from: usize, to: usize) -> (s: String)
    requires
        from <= to <= v@.len(),
    ensures
        s@ == v@.subrange(from as int, to as int),
{
    let mut s = String::new();
    let mut i: usize = from;
    while i < to
        invariant
            from <= i <= to <= v@.len(),
            s@ == v@.subrange(from as int, i as int),
        decreases to - i,
    {
        s.push(v[i]);
        assert(v@.subrange(from as int, i + 1) =~= v@.subrange(from as int, i as int).push(
            v@[i as int],
        ));
        i = i + 1;
    }
    s
}

/// Two strings are equal when they hold the same characters.
pub fn same_text(a: &str, b: &str) -> (r: bool)
    ensures
        r == (a@ == b@),
{
    let x = chars_of(a);
    let y = chars_of(b);
    if x.len() != y.len() {
        return false;
    }
    let mut i: usize = 0;
    while i < x.len()
        invariant
            i <= x@.len(),
            x@.len() == y@.len(),
            x@ == a@,
            y@ == b@,
            forall|j: int| 0 <= j < i ==> x@[j] == y@[j],
        decreases x@.len() - i,
    {
        if x[i] != y[i] {
            return false;
        }
        i = i + 1;
    }
    assert(a@ =~= b@);
    true
}

/// A copy of a string slice.
pub fn owned(s: &str) -> (r: String)
    ensures
        r@ == s@,
{
    s.to_string()
}

/// A copy of an optional string slice.
pub fn owned_option(s: Option<&str>) -> (r: Option<String>)
    ensures
        r.deep_view() == s.deep_view(),
{
    match s {
        Some(t) => Some(owned(t)),
        None => None,
    }
}

/// A copy of an optional string.
pub fn clone_text(s: &Option<String>) -> (r: Option<String>)
    ensures
        r.deep_view() == s.deep_view(),
{
    match s {
        Some(t) => Some(t.clone()),
        None => None,
    }
}

/// Concatenation of two strings.
pub fn concat(a: &str, b: &str) -> (r: String)
    ensures
        r@ == a@ + b@,
{
    let mut r = owned(a);
    r.append(b);
    r
}

/// Concatenation of three strings.
pub fn concat3(a: &str, b: &str, c: &str) -> (r: String)
    ensures
        r@ == a@ + b@ + c@,
{
    let mut r = owned(a);
    r.append(b);
    r.append(c);
    r
}

// ---------------------------------------------------------------------------
// Trimming

/// `s` without its longest prefix of characters in `class`.
pub open spec fn trim_start_by(class: CharClass, s: Seq<char>) -> Seq<char>
    decreases s.len(),
{
    if s.len() > 0 && class.has(s[0]) {
        trim_start_by(class, s.skip(1))
    } else {
        s
    }
}

/// `s` without its longest suffix of characters in `class`.
pub open spec fn trim_end_by(class: CharClass, s: Seq<char>) -> Seq<char>
    decreases s.len(),
{
    if s.len() > 0 && class.has(s.last()) {
        trim_end_by(class, s.take(s.len() - 1))
    } else {
        s
    }
}

/// `s` without leading and trailing characters in `class`.
pub open spec fn trim_by(class: CharClass, s: Seq<char>) -> Seq<char> {
    trim_end_by(class, trim_start_by(class, s))
}

/// `s` without leading and trailing white space.
pub open spec fn trimmed(s: Seq<char>) -> Seq<char> {
    trim_by(CharClass::Whitespace, s)
}

/// Whether nothing but white space stands in `s`.
pub open spec fn is_blank(s: Seq<char>) -> bool {
    trimmed(s).len() == 0
}

/// The first position from which the class no longer matches.
fn start_of(class: CharClass, v: &Vec<char>) -> (i: usize)
    ensures
        i <= v@.len(),
        v@.skip(i as int) == trim_start_by(class, v@),
{
    let mut i: usize = 0;
    assert(v@.skip(0) =~= v@);
    while i < v.len() && class.holds(v[i])
        invariant
            i <= v@.len(),
            trim_start_by(class, v@.skip(i as int)) == trim_start_by(class, v@),
        decreases v@.len() - i,
    {
        assert(v@.skip(i as int).skip(1) =~= v@.skip(i + 1));
        i = i + 1;
    }
    i
}

/// The end of what is left at `from..` when trailing characters of the class go.
fn end_of(class: CharClass, v: &Vec<char>, from: usize) -> (j: usize)
    requires
        from <= v@.len(),
    ensures
        from <= j <= v@.len(),
        v@.subrange(from as int, j as int) == trim_end_by(class, v@.skip(from as int)),
{
    let mut j: usize = v.len();
    assert(v@.subrange(from as int, v@.len() as int) =~= v@.skip(from as int));
    while j > from && class.holds(v[j - 1])
        invariant
            from <= j <= v@.len(),
            trim_end_by(class, v@.subrange(from as int, j as int)) == trim_end_by(
                class,
                v@.skip(from as int),
            ),
        decreases j,
    {
        assert(v@.subrange(from as int, j as int).take(j - from - 1) =~= v@.subrange(
            from as int,
            j - 1,
        ));
        j = j - 1;
    }
    j
}

/// `s` without its leading characters in `class`.
pub fn trim_start_class(class: CharClass, s: &str) -> (r: String)
    ensures
        r@ == trim_start_by(class, s@),
{
    let v = chars_of(s);
    let i = start_of(class, &v);
    assert(v@.subrange(i as int, v@.len() as int) =~= v@.skip(i as int));
    string_of(&v, i, v.len())
}

/// `s` without its trailing characters in `class`.
pub fn trim_end_class(class: CharClass, s: &str) -> (r: String)
    ensures
        r@ == trim_end_by(class, s@),
{
    let v = chars_of(s);
    let j = end_of(class, &v, 0);
    assert(v@.skip(0) =~= v@);
    string_of(&v, 0, j)
}

/// `s` without its leading and trailing characters in `class`.
pub fn trim_class(class: CharClass, s: &str) -> (r: String)
    ensures
        r@ == trim_by(class, s@),
{
    let v = chars_of(s);
    let i = start_of(class, &v);
    let j = end_of(class, &v, i);
    string_of(&v, i, j)
}

/// `s` without leading and trailing white space.
pub fn trim(s: &str) -> (r: String)
    ensures
        r@ == trimmed(s@),
{
    trim_class(CharClass::Whitespace, s)
}

/// What a start trim leaves is a suffix that does not start in the class.
pub proof fn lemma_trim_start(class: CharClass, s: Seq<char>)
    ensures
        trim_start_by(class, s).len() <= s.len(),
        trim_start_by(class, s) == s.skip(s.len() - trim_start_by(class, s).len()),
        trim_start_by(class, s).len() > 0 ==> !class.has(trim_start_by(class, s)[0]),
        forall|k: int|
            0 <= k < s.len() - trim_start_by(class, s).len() ==> class.has(#[trigger] s[k]),
    decreases s.len(),
{
    if s.len() > 0 && class.has(s[0]) {
        lemma_trim_start(class, s.skip(1));
        let t = trim_start_by(class, s.skip(1));
        assert(s.skip(1).skip(s.skip(1).len() - t.len()) =~= s.skip(s.len() - t.len()));
        assert forall|k: int| 0 <= k < s.len() - t.len() implies class.has(#[trigger] s[k]) by {
            if k > 0 {
                assert(s.skip(1)[k - 1] == s[k]);
            }
        }
    } else {
        assert(s.skip(0) =~= s);
    }
}

/// What an end trim leaves is a prefix that does not end in the class.
pub proof fn lemma_trim_end(class: CharClass, s: Seq<char>)
    ensures
        trim_end_by(class, s).len() <= s.len(),
        trim_end_by(class, s) == s.take(trim_end_by(class, s).len() as int),
        trim_end_by(class, s).len() > 0 ==> !class.has(trim_end_by(class, s).last()),
        forall|k: int|
            trim_end_by(class, s).len() <= k < s.len() ==> class.has(#[trigger] s[k]),
    decreases s.len(),
{
    if s.len() > 0 && class.has(s.last()) {
        let u = s.take(s.len() - 1);
        lemma_trim_end(class, u);
        let t = trim_end_by(class, u);
        assert(u.take(t.len() as int) =~= s.take(t.len() as int));
        assert forall|k: int| t.len() <= k < s.len() implies class.has(#[trigger] s[k]) by {
            if k < s.len() - 1 {
                assert(u[k] == s[k]);
            }
        }
    } else {
        assert(s.take(s.len() as int) =~= s);
    }
}

/// Trimming twice is trimming once.
pub proof fn lemma_trim_idempotent(class: CharClass, s: Seq<char>)
    ensures
        trim_by(class, trim_by(class, s)) == trim_by(class, s),
{
    let a = trim_start_by(class, s);
    let t = trim_end_by(class, a);
    lemma_trim_start(class, s);
    lemma_trim_end(class, a);
    if t.len() > 0 {
        assert(t[0] == a[0]);
        assert(trim_start_by(class, t) == t);
        assert(trim_end_by(class, t) == t);
    }
}

/// A text that starts with something else than white space is not blank.
pub proof fn lemma_not_blank(s: Seq<char>)
    requires
        s.len() > 0,
        !is_white_space(s[0]),
    ensures
        !is_blank(s),
{
    assert(trim_start_by(CharClass::Whitespace, s) == s);
    lemma_trim_end(CharClass::Whitespace, s);
}

// ---------------------------------------------------------------------------
// Searching

/// `pat` stands in `s` at position `i`.
pub open spec fn occurs_at(s: Seq<char>, pat: Seq<char>, i: int) -> bool {
    0 <= i && i + pat.len() <= s.len() && s.subrange(i, i + pat.len()) == pat
}

/// The first position at or after `from` where `pat` stands in `s`.
pub open spec fn first_at(s: Seq<char>, pat: Seq<char>, from: int) -> Option<int>
    decreases s.len() + 1 - from,
{
    if from < 0 || from + pat.len() > s.len() {
        None
    } else if occurs_at(s, pat, from) {
        Some(from)
    } else {
        first_at(s, pat, from + 1)
    }
}

/// `pat` stands somewhere in `s`.
pub open spec fn has_text(s: Seq<char>, pat: Seq<char>) -> bool {
    exists|i: int| occurs_at(s, pat, i)
}

/// `s` begins with `pat`.
pub open spec fn begins_with(s: Seq<char>, pat: Seq<char>) -> bool {
    pat.len() <= s.len() && s.take(pat.len() as int) == pat
}

/// `s` ends with `pat`.
pub open spec fn finishes_with(s: Seq<char>, pat: Seq<char>) -> bool {
    pat.len() <= s.len() && s.skip(s.len() - pat.len()) == pat
}

/// `first_at` finds the least position, and nothing only where there is none.
pub proof fn lemma_first_at(s: Seq<char>, pat: Seq<char>, from: int)
    requires
        0 <= from,
    ensures
        match first_at(s, pat, from) {
            Some(i) => from <= i && occurs_at(s, pat, i) && (forall|j: int|
                from <= j < i ==> !#[trigger] occurs_at(s, pat, j)),
            None => forall|j: int| from <= j ==> !#[trigger] occurs_at(s, pat, j),
        },
    decreases s.len() + 1 - from,
{
    if from + pat.len() <= s.len() && !occurs_at(s, pat, from) {
        lemma_first_at(s, pat, from + 1);
    }
}

/// Whether `pat` stands in `v` at position `i`.
pub fn matches_at(v: &Vec<char>, pat: &Vec<char>, i: usize) -> (b: bool)
    ensures
        b == occurs_at(v@, pat@, i as int),
{
    if i > v.len() || pat.len() > v.len() - i {
        return false;
    }
    let mut k: usize = 0;
    while k < pat.len()
        invariant
            k <= pat@.len(),
            i + pat@.len() <= v.len(),
            forall|j: int| 0 <= j < k ==> v@[i + j] == #[trigger] pat@[j],
        decreases pat@.len() - k,
    {
        if v[i + k] != pat[k] {
            assert(v@.subrange(i as int, i + pat@.len())[k as int] != pat@[k as int]);
            return false;
        }
        k = k + 1;
    }
    assert(v@.subrange(i as int, i + pat@.len()) =~= pat@);
    true
}

/// The first position at or after `from` where `pat` stands in `v`.
pub fn find_from(v: &Vec<char>, pat: &Vec<char>, from: usize) -> (r: Option<usize>)
    ensures
        match r {
            Some(i) => first_at(v@, pat@, from as int) == Some(i as int) && from <= i && i
                + pat@.len() <= v@.len(),
            None => first_at(v@, pat@, from as int) is None,
        },
{
    let mut i: usize = from;
    while i <= v.len() && pat.len() <= v.len() - i
        invariant
            from <= i,
            first_at(v@, pat@, i as int) == first_at(v@, pat@, from as int),
        decreases v@.len() + 1 - i,
    {
        if matches_at(v, pat, i) {
            return Some(i);
        }
        if i == usize::MAX {
            assert(first_at(v@, pat@, i + 1) is None);
            return None;
        }
        i = i + 1;
    }
    None
}

/// Whether `pat` stands somewhere in `s`.
pub fn contains(s: &str, pat: &str) -> (b: bool)
    ensures
        b == has_text(s@, pat@),
{
    let v = chars_of(s);
    let p = chars_of(pat);
    proof {
        lemma_first_at(s@, pat@, 0);
        assert forall|i: int| occurs_at(s@, pat@, i) implies i >= 0 by {}
    }
    match find_from(&v, &p, 0) {
        Some(i) => true,
        None => false,
    }
}

/// Whether `s` begins with `pat`.
pub fn starts_with(s: &str, pat: &str) -> (b: bool)
    ensures
        b == begins_with(s@, pat@),
{
    let v = chars_of(s);
    let p = chars_of(pat);
    proof {
        if pat@.len() <= s@.len() {
            assert(s@.take(pat@.len() as int) =~= s@.subrange(0, pat@.len() as int));
        }
    }
    matches_at(&v, &p, 0)
}

/// Whether `s` ends with `pat`.
pub fn ends_with(s: &str, pat: &str) -> (b: bool)
    ensures
        b == finishes_with(s@, pat@),
{
    let v = chars_of(s);
    let p = chars_of(pat);
    if p.len() > v.len() {
        return false;
    }
    proof {
        assert(s@.skip(s@.len() - pat@.len()) =~= s@.subrange(
            s@.len() - pat@.len(),
            s@.len() as int,
        ));
    }
    matches_at(&v, &p, v.len() - p.len())
}

/// `s` with every occurrence of `pat`, from the left and without overlap, replaced by `rep`.
pub open spec fn replaced(s: Seq<char>, pat: Seq<char>, rep: Seq<char>) -> Seq<char>
    decreases s.len(),
{
    match first_at(s, pat, 0) {
        Some(i) => if 0 <= i && pat.len() > 0 && i + pat.len() <= s.len() {
            s.take(i) + rep + replaced(s.skip(i + pat.len()), pat, rep)
        } else {
            s
        },
        None => s,
    }
}

/// Searching from a position is searching in what is left.
proof fn lemma_first_at_skip(s: Seq<char>, pat: Seq<char>, base: int, from: int)
    requires
        0 <= base,
        0 <= from,
        base + from <= s.len(),
    ensures
        match first_at(s.skip(base), pat, from) {
            Some(i) => first_at(s, pat, base + from) == Some(base + i),
            None => first_at(s, pat, base + from) is None,
        },
    decreases s.len() - base - from,
{
    let t = s.skip(base);
    if from + pat.len() <= t.len() {
        assert(t.subrange(from, from + pat.len()) =~= s.subrange(
            base + from,
            base + from + pat.len(),
        ));
        if !occurs_at(t, pat, from) && base + from + 1 <= s.len() {
            lemma_first_at_skip(s, pat, base, from + 1);
        }
    }
}

/// `s` with every occurrence of `pat` replaced by `rep`.
pub fn replace_all(s: &str, pat: &str, rep: &str) -> (r: String)
    requires
        pat@.len() > 0,
    ensures
        r@ == replaced(s@, pat@, rep@),
{
    let v = chars_of(s);
    let p = chars_of(pat);
    let mut out = String::new();
    let mut at: usize = 0;
    assert(s@.skip(0) =~= s@);
    assert(out@ + replaced(s@, pat@, rep@) =~= replaced(s@, pat@, rep@));
    while at < v.len()
        invariant_except_break
            v@ == s@,
            p@ == pat@,
            p@.len() > 0,
            at <= v@.len(),
            out@ + replaced(s@.skip(at as int), pat@, rep@) == replaced(s@, pat@, rep@),
        ensures
            at <= v@.len(),
            v@ == s@,
            out@ + s@.skip(at as int) == replaced(s@, pat@, rep@),
        decreases v@.len() - at,
    {
        proof {
            lemma_first_at_skip(s@, pat@, at as int, 0);
            lemma_first_at(s@, pat@, at as int);
        }
        match find_from(&v, &p, at) {
            Some(i) => {
                let ghost before = out@;
                let ghost rest = s@.skip(at as int);
                out.append(string_of(&v, at, i).as_str());
                out.append(rep);
                proof {
                    assert(rest.take(i - at) =~= s@.subrange(at as int, i as int));
                    assert(rest.skip(i - at + pat@.len()) =~= s@.skip(i + pat@.len()));
                    assert(out@ + replaced(s@.skip(i + pat@.len()), pat@, rep@) =~= before + (
                    rest.take(i - at) + rep@ + replaced(s@.skip(i + pat@.len()), pat@, rep@)));
                }
                at = i + p.len();
            },
            None => {
                break;
            },
        }
    }
    out.append(string_of(&v, at, v.len()).as_str());
    assert(s@.subrange(at as int, s@.len() as int) =~= s@.skip(at as int));
    out
}

// ---------------------------------------------------------------------------
// Splitting and joining

/// The first position of `c` in `s`, or the length of `s`.
pub open spec fn index_of_char(s: Seq<char>, c: char) -> int
    decreases s.len(),
{
    if s.len() == 0 || s[0] == c {
        0
    } else {
        1 + index_of_char(s.skip(1), c)
    }
}

/// The position found is the first one.
pub proof fn lemma_index_of_char(s: Seq<char>, c: char)
    ensures
        0 <= index_of_char(s, c) <= s.len(),
        index_of_char(s, c) < s.len() ==> s[index_of_char(s, c)] == c,
        forall|k: int| 0 <= k < index_of_char(s, c) ==> #[trigger] s[k] != c,
    decreases s.len(),
{
    if s.len() > 0 && s[0] != c {
        lemma_index_of_char(s.skip(1), c);
        assert forall|k: int| 0 <= k < index_of_char(s, c) implies #[trigger] s[k] != c by {
            if k > 0 {
                assert(s.skip(1)[k - 1] == s[k]);
            }
        }
    }
}

/// The first position of `c` at or after `from`, or the length.
pub fn find_char(v: &Vec<char>, c: char, from: usize) -> (i: usize)
    requires
        from <= v@.len(),
    ensures
        from <= i <= v@.len(),
        i == from + index_of_char(v@.skip(from as int), c),
{
    let mut i: usize = from;
    while i < v.len() && v[i] != c
        invariant
            from <= i <= v@.len(),
            i - from + index_of_char(v@.skip(i as int), c) == index_of_char(
                v@.skip(from as int),
                c,
            ),
        decreases v@.len() - i,
    {
        assert(v@.skip(i as int).skip(1) =~= v@.skip(i + 1));
        i = i + 1;
    }
    i
}

/// A line without the carriage return that a line feed followed.
pub open spec fn without_cr(s: Seq<char>) -> Seq<char> {
    if s.len() > 0 && s.last() == '\r' {
        s.take(s.len() - 1)
    } else {
        s
    }
}

/// The lines of a text: split after each line feed, without the line feed and
/// without one carriage return before it. Nothing follows a final line feed.
pub open spec fn lines(s: Seq<char>) -> Seq<Seq<char>>
    decreases s.len(),
{
    if s.len() == 0 {
        seq![]
    } else {
        let k = index_of_char(s, '\n');
        if 0 <= k < s.len() {
            seq![without_cr(s.take(k))] + lines(s.skip(k + 1))
        } else {
            seq![s]
        }
    }
}

/// The lines of a text.
pub fn lines_of(s: &str) -> (r: Vec<String>)
    ensures
        r.deep_view() == lines(s@),
{
    let v = chars_of(s);
    let mut out: Vec<String> = Vec::new();
    let mut at: usize = 0;
    assert(s@.skip(0) =~= s@);
    assert(out.deep_view() + lines(s@) =~= lines(s@));
    while at < v.len()
        invariant
            v@ == s@,
            at <= v@.len(),
            out.deep_view() + lines(s@.skip(at as int)) == lines(s@),
        decreases v@.len() - at,
    {
        let ghost rest = s@.skip(at as int);
        let ghost before = out.deep_view();
        let i = find_char(&v, '\n', at);
        proof {
            lemma_index_of_char(rest, '\n');
        }
        if i < v.len() {
            let end: usize = if i > at && v[i - 1] == '\r' {
                i - 1
            } else {
                i
            };
            let line = string_of(&v, at, end);
            proof {
                assert(rest.take(i - at) =~= s@.subrange(at as int, i as int));
                assert(line@ =~= without_cr(rest.take(i - at)));
                assert(rest.skip(i - at + 1) =~= s@.skip(i + 1));
            }
            out.push(line);
            proof {
                assert(out.deep_view() =~= before.push(line@));
                assert(out.deep_view() + lines(s@.skip(i + 1)) =~= before + lines(rest));
            }
            at = i + 1;
        } else {
            let line = string_of(&v, at, i);
            proof {
                assert(line@ =~= rest);
            }
            out.push(line);
            proof {
                assert(out.deep_view() =~= before.push(line@));
                assert(s@.skip(i as int) =~= Seq::<char>::empty());
                assert(out.deep_view() + lines(s@.skip(i as int)) =~= before + lines(rest));
            }
            at = i;
        }
    }
    assert(s@.skip(at as int) =~= Seq::<char>::empty());
    assert(out.deep_view() + lines(s@.skip(at as int)) =~= out.deep_view());
    out
}

/// No character in the text comes before the blank: there are no line ends.
pub open spec fn has_no_controls(s: Seq<char>) -> bool {
    forall|k: int| 0 <= k < s.len() ==> (#[trigger] s[k]) as u32 >= 0x20
}

/// The text fits on one line: there is something in it, it neither starts nor
/// ends with white space, and no line ends in it.
pub open spec fn fills_line(s: Seq<char>) -> bool {
    &&& s.len() > 0
    &&& !is_white_space(s[0])
    &&& !is_white_space(s.last())
    &&& has_no_controls(s)
}

/// Nothing but the line feed is trimmed from a line.
pub proof fn lemma_trimmed_line(line: Seq<char>)
    requires
        fills_line(line),
    ensures
        trimmed(line) == line,
        trimmed(line.push('\n')) == line,
{
    let s = line.push('\n');
    assert(s[0] == line[0]);
    assert(s.take(s.len() - 1) =~= line);
    assert(trim_end_by(CharClass::Whitespace, line) == line);
    assert(CharClass::Whitespace.has(s.last()));
}

/// A line that is added to a text whose lines all end becomes the last line.
pub proof fn lemma_line_is_added(content: Seq<char>, line: Seq<char>)
    requires
        content.len() == 0 || content.last() == '\n',
        fills_line(line),
    ensures
        lines((content + line).push('\n')) == lines(content).push(line),
    decreases content.len(),
{
    let s = (content + line).push('\n');
    let k = index_of_char(s, '\n');
    lemma_index_of_char(s, '\n');
    if content.len() == 0 {
        assert(s[line.len() as int] == '\n');
        assert(k == line.len()) by {
            if k < line.len() {
                assert(s[k] == line[k]);
            }
        }
        assert(s.take(k) =~= line);
        assert(s.skip(k + 1) =~= Seq::<char>::empty());
        assert(without_cr(line) == line);
        assert(seq![line] + lines(s.skip(k + 1)) =~= lines(content).push(line));
    } else {
        let j = index_of_char(content, '\n');
        lemma_index_of_char(content, '\n');
        assert(j < content.len());
        assert(s[j] == content[j]);
        assert(k == j) by {
            if k < j {
                assert(s[k] == content[k]);
            }
        }
        let rest = content.skip(j + 1);
        assert(s.take(k) =~= content.take(j));
        assert(s.skip(k + 1) =~= (rest + line).push('\n'));
        if rest.len() > 0 {
            assert(rest.last() == content.last());
        }
        lemma_line_is_added(rest, line);
        assert(seq![without_cr(content.take(j))] + lines(rest).push(line) =~= (seq![
            without_cr(content.take(j)),
        ] + lines(rest)).push(line));
    }
}

/// The length of the longest prefix without white space.
pub open spec fn word_len(s: Seq<char>) -> int
    decreases s.len(),
{
    if s.len() == 0 || is_white_space(s[0]) {
        0
    } else {
        1 + word_len(s.skip(1))
    }
}

/// A word lies inside its text.
pub proof fn lemma_word_len(s: Seq<char>)
    ensures
        0 <= word_len(s) <= s.len(),
        s.len() > 0 && !is_white_space(s[0]) ==> word_len(s) > 0,
    decreases s.len(),
{
    if s.len() > 0 && !is_white_space(s[0]) {
        lemma_word_len(s.skip(1));
    }
}

/// The maximal runs of characters other than white space.
pub open spec fn words(s: Seq<char>) -> Seq<Seq<char>>
    decreases s.len(),
{
    if s.len() == 0 {
        seq![]
    } else if is_white_space(s[0]) {
        words(s.skip(1))
    } else {
        let k = word_len(s);
        if 0 < k <= s.len() {
            seq![s.take(k)] + words(s.skip(k))
        } else {
            seq![]
        }
    }
}

/// The white-space separated words of a text.
pub fn words_of(s: &str) -> (r: Vec<String>)
    ensures
        r.deep_view() == words(s@),
{
    let v = chars_of(s);
    let mut out: Vec<String> = Vec::new();
    let mut at: usize = 0;
    assert(s@.skip(0) =~= s@);
    assert(out.deep_view() + words(s@) =~= words(s@));
    while at < v.len()
        invariant
            v@ == s@,
            at <= v@.len(),
            out.deep_view() + words(s@.skip(at as int)) == words(s@),
        decreases v@.len() - at,
    {
        let ghost rest = s@.skip(at as int);
        let ghost before = out.deep_view();
        if is_whitespace(v[at]) {
            assert(rest.skip(1) =~= s@.skip(at + 1));
            at = at + 1;
        } else {
            let mut i: usize = at;
            while i < v.len() && !is_whitespace(v[i])
                invariant
                    at <= i <= v@.len(),
                    i - at + word_len(v@.skip(i as int)) == word_len(v@.skip(at as int)),
                decreases v@.len() - i,
            {
                assert(v@.skip(i as int).skip(1) =~= v@.skip(i + 1));
                i = i + 1;
            }
            let word = string_of(&v, at, i);
            proof {
                lemma_word_len(rest);
                assert(rest.take(i - at) =~= word@);
                assert(rest.skip(i - at) =~= s@.skip(i as int));
            }
            out.push(word);
            proof {
                assert(out.deep_view() =~= before.push(word@));
                assert(out.deep_view() + words(s@.skip(i as int)) =~= before + words(rest));
            }
            at = i;
        }
    }
    assert(s@.skip(at as int) =~= Seq::<char>::empty());
    assert(out.deep_view() + words(s@.skip(at as int)) =~= out.deep_view());
    out
}

/// The parts in order with `sep` between neighbours.
pub open spec fn joined(parts: Seq<Seq<char>>, sep: Seq<char>) -> Seq<char>
    decreases parts.len(),
{
    if parts.len() == 0 {
        seq![]
    } else if parts.len() == 1 {
        parts[0]
    } else {
        joined(parts.drop_last(), sep) + sep + parts.last()
    }
}

/// The strings in order with `sep` between neighbours.
pub fn join(parts: &Vec<String>, sep: &str) -> (r: String)
    ensures
        r@ == joined(parts.deep_view(), sep@),
{
    let mut out = String::new();
    let ghost all = parts.deep_view();
    let mut i: usize = 0;
    assert(out@ =~= joined(all.take(0), sep@));
    while i < parts.len()
        invariant
            i <= parts@.len(),
            all == parts.deep_view(),
            out@ == joined(all.take(i as int), sep@),
        decreases parts@.len() - i,
    {
        if i > 0 {
            out.append(sep);
        }
        out.append(parts[i].as_str());
        proof {
            let next = all.take(i + 1);
            assert(next.drop_last() =~= all.take(i as int));
            assert(next.last() == parts@[i as int]@);
            if i == 0 {
                assert(out@ =~= next[0]);
            }
        }
        i = i + 1;
    }
    assert(all.take(all.len() as int) =~= all);
    out
}

/// A text with its words separated by single blanks.
pub open spec fn collapsed(s: Seq<char>) -> Seq<char> {
    joined(words(s), seq![' '])
}

/// A text with its words separated by single blanks, and nothing around them.
pub fn collapse_whitespace(s: &str) -> (r: String)
    ensures
        r@ == collapsed(s@),
{
    let w = words_of(s);
    let blank = " ";
    proof {
        reveal_strlit(" ");
        assert(blank@ =~= seq![' ']);
    }
    join(&w, blank)
}

// ---------------------------------------------------------------------------
// Mapping and cutting

/// Every character in ASCII lower case.
pub open spec fn lowered(s: Seq<char>) -> Seq<char> {
    s.map_values(|c: char| lower_char(c))
}

/// `s` in ASCII lower case.
pub fn to_ascii_lower(s: &str) -> (r: String)
    ensures
        r@ == lowered(s@),
{
    let v = chars_of(s);
    let mut out = String::new();
    let mut i: usize = 0;
    assert(out@ =~= lowered(s@).take(0));
    while i < v.len()
        invariant
            v@ == s@,
            i <= v@.len(),
            out@ == lowered(s@).take(i as int),
        decreases v@.len() - i,
    {
        out.push(to_lower_char(v[i]));
        assert(lowered(s@).take(i + 1) =~= lowered(s@).take(i as int).push(lowered(s@)[i as int]));
        i = i + 1;
    }
    assert(lowered(s@).take(i as int) =~= lowered(s@));
    out
}

/// The number of characters of `s`.
pub fn char_count(s: &str) -> (n: usize)
    ensures
        n == s@.len(),
{
    s.unicode_len()
}

/// The number of bytes of a text.
pub open spec fn byte_len(s: Seq<char>) -> nat {
    vstd::utf8::encode_utf8(s).len()
}

/// The number of bytes of a text.
pub fn count_bytes(s: &str) -> (n: usize)
    ensures
        n == byte_len(s@),
{
    s.as_bytes().len()
}

/// Two texts take as many bytes together as one by one.
pub proof fn lemma_bytes_add_up(a: Seq<char>, b: Seq<char>)
    ensures
        byte_len(a + b) == byte_len(a) + byte_len(b),
    decreases a.len(),
{
    if a.len() == 0 {
        assert(a + b =~= b);
        assert(byte_len(a) == 0);
    } else {
        assert((a + b).drop_first() =~= a.drop_first() + b);
        assert((a + b)[0] == a[0]);
        lemma_bytes_add_up(a.drop_first(), b);
    }
}

/// At most the first `n` characters.
pub open spec fn first_chars(s: Seq<char>, n: nat) -> Seq<char> {
    if s.len() <= n {
        s
    } else {
        s.take(n as int)
    }
}

/// At most the first `n` characters of `s`.
pub fn take_chars(s: &str, n: usize) -> (r: String)
    ensures
        r@ == first_chars(s@, n as nat),
{
    let v = chars_of(s);
    let end: usize = if n < v.len() {
        n
    } else {
        v.len()
    };
    assert(s@.subrange(0, end as int) =~= first_chars(s@, n as nat));
    string_of(&v, 0, end)
}

// ---------------------------------------------------------------------------
// Order

/// `a` stands before `b` in the order of strings: by the first character in
/// which they differ, a proper prefix before what extends it.
pub open spec fn precedes(a: Seq<char>, b: Seq<char>) -> bool
    decreases a.len(),
{
    if b.len() == 0 {
        false
    } else if a.len() == 0 {
        true
    } else if a[0] != b[0] {
        a[0] < b[0]
    } else {
        precedes(a.skip(1), b.skip(1))
    }
}

/// No string stands before itself.
pub proof fn lemma_precedes_irreflexive(a: Seq<char>)
    ensures
        !precedes(a, a),
    decreases a.len(),
{
    if a.len() > 0 {
        lemma_precedes_irreflexive(a.skip(1));
    }
}

/// The order of strings is transitive.
pub proof fn lemma_precedes_transitive(a: Seq<char>, b: Seq<char>, c: Seq<char>)
    requires
        precedes(a, b),
        precedes(b, c),
    ensures
        precedes(a, c),
    decreases a.len(),
{
    if a.len() > 0 && b.len() > 0 && c.len() > 0 && a[0] == b[0] && b[0] == c[0] {
        lemma_precedes_transitive(a.skip(1), b.skip(1), c.skip(1));
    }
}

/// Of two different strings one stands before the other.
pub proof fn lemma_precedes_total(a: Seq<char>, b: Seq<char>)
    ensures
        a == b || precedes(a, b) || precedes(b, a),
    decreases a.len(),
{
    if a.len() > 0 && b.len() > 0 && a[0] == b[0] {
        lemma_precedes_total(a.skip(1), b.skip(1));
        if a.skip(1) == b.skip(1) {
            assert(a =~= seq![a[0]] + a.skip(1));
            assert(b =~= seq![b[0]] + b.skip(1));
        }
    } else if a.len() == 0 && b.len() == 0 {
        assert(a =~= b);
    }
}

/// Two strings do not stand before each other.
pub proof fn lemma_precedes_asymmetric(a: Seq<char>, b: Seq<char>)
    requires
        precedes(a, b),
    ensures
        !precedes(b, a),
        a != b,
{
    lemma_precedes_irreflexive(a);
    if precedes(b, a) {
        lemma_precedes_transitive(a, b, a);
    }
}

/// Whether `a` stands before `b` in the order of strings.
pub fn is_before(a: &str, b: &str) -> (r: bool)
    ensures
        r == precedes(a@, b@),
{
    let x = chars_of(a);
    let y = chars_of(b);
    let mut i: usize = 0;
    assert(a@.skip(0) =~= a@);
    assert(b@.skip(0) =~= b@);
    while i < x.len() && i < y.len()
        invariant
            x@ == a@,
            y@ == b@,
            i <= x@.len(),
            i <= y@.len(),
            precedes(a@.skip(i as int), b@.skip(i as int)) == precedes(a@, b@),
        decreases x@.len() - i,
    {
        if x[i] != y[i] {
            return x[i] < y[i];
        }
        assert(a@.skip(i as int).skip(1) =~= a@.skip(i + 1));
        assert(b@.skip(i as int).skip(1) =~= b@.skip(i + 1));
        i = i + 1;
    }
    i < y.len()
}

// ---------------------------------------------------------------------------
// Labels

/// A character that labels are made of.
pub open spec fn is_label_char(c: char) -> bool {
    is_ascii_alnum(c) || c == '_' || c == '-'
}

/// A label as it was given, without blanks around it, or what is wrong with it:
/// it must not be empty, nor longer than 64 bytes, nor hold anything but ASCII
/// letters, digits, `_` and `-`.
pub open spec fn label(raw: Seq<char>, what: Seq<char>) -> Result<Seq<char>, Seq<char>> {
    let t = trimmed(raw);
    if t.len() == 0 {
        Err(what + " cannot be empty"@)
    } else if byte_len(t) > 64 {
        Err(what + " too long (max 64 chars)"@)
    } else if forall|i: int| 0 <= i < t.len() ==> is_label_char(#[trigger] t[i]) {
        Ok(t)
    } else {
        Err(what + " can only contain letters, digits, '_' or '-'"@)
    }
}

/// A label as it was given, or what is wrong with it.
pub fn normalize_label(raw: &str, what: &str) -> (r: Result<String, String>)
    ensures
        match r {
            Ok(s) => label(raw@, what@) == Ok::<Seq<char>, Seq<char>>(s@),
            Err(e) => label(raw@, what@) == Err::<Seq<char>, Seq<char>>(e@),
        },
{
    let t = trim(raw);
    if char_count(t.as_str()) == 0 {
        return Err(concat(what, " cannot be empty"));
    }
    if count_bytes(t.as_str()) > 64 {
        return Err(concat(what, " too long (max 64 chars)"));
    }
    let v = chars_of(t.as_str());
    let mut i: usize = 0;
    while i < v.len()
        invariant
            i <= v@.len(),
            v@ == t@,
            t@ == trimmed(raw@),
            t@.len() > 0,
            byte_len(t@) <= 64,
            forall|k: int| 0 <= k < i ==> is_label_char(#[trigger] t@[k]),
        decreases v@.len() - i,
    {
        let c = v[i];
        if !(is_ascii_alphanumeric(c) || c == '_' || c == '-') {
            assert(!is_label_char(t@[i as int]));
            return Err(concat(what, " can only contain letters, digits, '_' or '-'"));
        }
        i = i + 1;
    }
    Ok(t)
}

/// A label that was accepted is accepted again, as it is.
pub proof fn lemma_label_is_stable(raw: Seq<char>, what: Seq<char>)
    requires
        label(raw, what) is Ok,
    ensures
        label(label(raw, what)->Ok_0, what) == label(raw, what),
{
    lemma_trim_idempotent(CharClass::Whitespace, raw);
}

// ---------------------------------------------------------------------------
// Decimal numbers

/// The character of a decimal digit.
pub open spec fn digit_char(d: nat) -> char {
    (('0' as u8) + d) as u8 as char
}

/// A number in decimal notation, without leading zeros.
pub open spec fn decimal(n: nat) -> Seq<char>
    decreases n,
{
    if n < 10 {
        seq![digit_char(n)]
    } else {
        decimal(n / 10).push(digit_char(n % 10))
    }
}

/// `n` in decimal notation.
pub fn decimal_of(n: u128) -> (r: String)
    ensures
        r@ == decimal(n as nat),
    decreases n,
{
    let d: u8 = (n % 10) as u8;
    let mut r = if n < 10 {
        String::new()
    } else {
        decimal_of(n / 10)
    };
    r.push((48 + d) as char);
    assert(r@ =~= decimal(n as nat));
    r
}

/// Digits alone stand in a decimal number.
pub proof fn lemma_decimal_has_no_controls(n: nat)
    ensures
        has_no_controls(decimal(n)),
    decreases n,
{
    if n >= 10 {
        lemma_decimal_has_no_controls(n / 10);
    }
}

// ---------------------------------------------------------------------------
// Bytes

/// The text that bytes stand for, with what is no UTF-8 replaced.
pub uninterp spec fn utf8_lossy(bytes: Seq<u8>) -> Seq<char>;

/// `String::from_utf8_lossy`: the text that bytes stand for in UTF-8, with what
/// is none replaced. It depends on the bytes alone, and nothing is replaced where
/// all of them are UTF-8.
#[verifier::external_body]
pub(crate) fn decode_lossy(bytes: &Vec<u8>) -> (r: String)
    ensures
        r@ == utf8_lossy(bytes@),
        vstd::utf8::valid_utf8(bytes@) ==> r@ == vstd::utf8::decode_utf8(bytes@),
{
    String::from_utf8_lossy(bytes).into_owned()
}

// ---------------------------------------------------------------------------
// Reading numbers

/// An ASCII digit.
pub open spec fn is_digit(c: char) -> bool {
    '0' <= c <= '9'
}

/// The number that digits stand for; nothing if there are none, or something
/// else among them.
pub open spec fn digits_value(s: Seq<char>) -> Option<nat>
    decreases s.len(),
{
    if s.len() == 0 || !is_digit(s.last()) {
        None
    } else {
        let d = (s.last() as int - '0' as int) as nat;
        if s.len() == 1 {
            Some(d)
        } else {
            match digits_value(s.drop_last()) {
                Some(n) => Some(10 * n + d),
                None => None,
            }
        }
    }
}

/// The number that a text stands for: digits, with or without a plus sign
/// before them.
pub open spec fn unsigned(s: Seq<char>) -> Option<nat> {
    if s.len() > 0 && s[0] == '+' {
        digits_value(s.skip(1))
    } else {
        digits_value(s)
    }
}

/// More digits stand for no smaller number, and a prefix that is no number
/// begins none.
proof fn lemma_digits_grow(s: Seq<char>, k: int)
    requires
        1 <= k <= s.len(),
    ensures
        digits_value(s.take(k)) is None ==> digits_value(s) is None,
        digits_value(s) matches Some(n) ==> digits_value(s.take(k)) matches Some(m) && n >= m,
    decreases s.len(),
{
    if k == s.len() {
        assert(s.take(k) =~= s);
    } else {
        assert(s.drop_last().take(k) =~= s.take(k));
        lemma_digits_grow(s.drop_last(), k);
    }
}

/// The number that a text stands for, if it fits.
pub fn parse_usize(s: &str) -> (r: Option<usize>)
    ensures
        r == match unsigned(s@) {
            Some(n) => if n <= usize::MAX {
                Some(n as usize)
            } else {
                None
            },
            None => None,
        },
{
    let all = chars_of(s);
    let from: usize = if all.len() > 0 && all[0] == '+' {
        1
    } else {
        0
    };
    let ghost digits = s@.skip(from as int);
    assert(s@.skip(0) =~= s@);
    if from == all.len() {
        return None;
    }
    let mut value: usize = 0;
    let mut i: usize = from;
    while i < all.len()
        invariant
            all@ == s@,
            from <= i <= all@.len(),
            from < all@.len(),
            digits == s@.skip(from as int),
            unsigned(s@) == digits_value(digits),
            i > from ==> digits_value(digits.take(i - from)) == Some(value as nat),
            i == from ==> value == 0,
        decreases all@.len() - i,
    {
        let c = all[i];
        let ghost k = i - from + 1;
        proof {
            assert(digits.take(k).last() == c);
            assert(digits.take(k).drop_last() =~= digits.take(k - 1));
            lemma_digits_grow(digits, k);
        }
        if !('0' <= c && c <= '9') {
            return None;
        }
        let d: usize = (c as u8 - 48) as usize;
        match value.checked_mul(10) {
            Some(tens) => match tens.checked_add(d) {
                Some(n) => {
                    value = n;
                },
                None => {
                    return None;
                },
            },
            None => {
                return None;
            },
        }
        i = i + 1;
    }
    assert(digits.take(digits.len() as int) =~= digits);
    Some(value)
}

/// A number that was written in decimal notation is read back.
pub proof fn lemma_decimal_is_read_back(n: nat)
    ensures
        digits_value(decimal(n)) == Some(n),
        unsigned(decimal(n)) == Some(n),
        decimal(n).len() > 0,
        forall|i: int| 0 <= i < decimal(n).len() ==> is_digit(#[trigger] decimal(n)[i]),
    decreases n,
{
    if n >= 10 {
        lemma_decimal_is_read_back(n / 10);
        assert(decimal(n).drop_last() =~= decimal(n / 10));
        assert(decimal(n)[0] == decimal(n / 10)[0]);
    }
    assert(is_digit(decimal(n)[0]));
}

/// A text stands in itself.
pub proof fn lemma_has_itself(s: Seq<char>)
    ensures
        has_text(s, s),
{
    assert(s.subrange(0, s.len() as int) =~= s);
    assert(occurs_at(s, s, 0));
}

/// What stands in a part of a text stands in the text.
pub proof fn lemma_has_text_within(
    head: Seq<char>,
    part: Seq<char>,
    tail: Seq<char>,
    wanted: Seq<char>,
)
    requires
        has_text(part, wanted),
    ensures
        has_text(head + part + tail, wanted),
{
    let i = choose|i: int| occurs_at(part, wanted, i);
    let all = head + part + tail;
    let at = head.len() + i;
    assert(all.subrange(at, at + wanted.len()) =~= part.subrange(i, i + wanted.len()));
    assert(occurs_at(all, wanted, at));
}

/// No line of a text holds a line feed, and a text without one is a line.
pub proof fn lemma_lines_hold_no_line_feed(s: Seq<char>, i: int)
    requires
        0 <= i < lines(s).len(),
    ensures
        !lines(s)[i].contains('\n'),
    decreases s.len(),
{
    let k = index_of_char(s, '\n');
    lemma_index_of_char(s, '\n');
    if 0 <= k < s.len() {
        let rest = lines(s.skip(k + 1));
        if i == 0 {
            let line = without_cr(s.take(k));
            assert forall|j: int| 0 <= j < line.len() implies line[j] != '\n' by {
                assert(line[j] == s[j]);
            }
        } else {
            lemma_lines_hold_no_line_feed(s.skip(k + 1), i - 1);
            assert(lines(s)[i] == rest[i - 1]);
        }
    } else {
        assert forall|j: int| 0 <= j < s.len() implies s[j] != '\n' by {}
    }
}

/// A line that ends is the first line of the text, and the others follow; a
/// carriage return before its end is no part of it.
pub proof fn lemma_first_line(line: Seq<char>, rest: Seq<char>)
    requires
        !line.contains('\n'),
        line.len() > 0 ==> line.last() != '\r',
    ensures
        lines(line.push('\n') + rest) == seq![line] + lines(rest),
        lines(line.push('\r').push('\n') + rest) == seq![line] + lines(rest),
{
    let a = line.push('\n') + rest;
    lemma_index_of_char(a, '\n');
    let k = index_of_char(a, '\n');
    assert(a[line.len() as int] == '\n');
    if k < line.len() {
        assert(a[k] == line[k]);
        assert(line.contains('\n'));
    }
    assert(k == line.len());
    assert(a.take(k) =~= line);
    assert(a.skip(k + 1) =~= rest);
    let b = line.push('\r').push('\n') + rest;
    lemma_index_of_char(b, '\n');
    let m = index_of_char(b, '\n');
    assert(b[line.len() as int + 1] == '\n');
    if m < line.len() {
        assert(b[m] == line[m]);
        assert(line.contains('\n'));
    }
    assert(b[line.len() as int] == '\r');
    assert(m == line.len() + 1);
    assert(b.take(m) =~= line.push('\r'));
    assert(line.push('\r').take(line.len() as int) =~= line);
    assert(b.skip(m + 1) =~= rest);
}

/// The last line of a text need not end.
pub proof fn lemma_last_line(line: Seq<char>)
    requires
        !line.contains('\n'),
        line.len() > 0,
    ensures
        lines(line) == seq![line],
        lines(Seq::<char>::empty()).len() == 0,
{
    lemma_index_of_char(line, '\n');
    let k = index_of_char(line, '\n');
    if 0 <= k < line.len() {
        assert(line[k] == '\n');
    }
}

/// A text in which nothing is to be replaced stays as it is.
pub proof fn lemma_nothing_to_replace(s: Seq<char>, pat: Seq<char>, rep: Seq<char>)
    requires
        !has_text(s, pat),
    ensures
        replaced(s, pat, rep) == s,
{
    lemma_first_at(s, pat, 0);
}

/// Only the letters from `A` to `Z` have a small form, which is the letter of
/// the same place.
pub proof fn lemma_lowered(s: Seq<char>, i: int)
    requires
        0 <= i < s.len(),
    ensures
        lowered(s).len() == s.len(),
        'A' <= s[i] <= 'Z' ==> lowered(s)[i] as int == s[i] as int + 32,
        !('A' <= s[i] <= 'Z') ==> lowered(s)[i] == s[i],
{
}

/// A label is given back without the blanks around it; exactly the texts that
/// are blank, longer than 64 bytes or made of other characters than letters,
/// digits, dashes and underscores are none.
pub proof fn lemma_which_labels_are_accepted(raw: Seq<char>, what: Seq<char>)
    ensures
        label(raw, what) is Ok <==> {
            let t = trimmed(raw);
            &&& t.len() > 0
            &&& byte_len(t) <= 64
            &&& forall|i: int|
                0 <= i < t.len() ==> ('a' <= #[trigger] t[i] <= 'z' || 'A' <= t[i] <= 'Z' || '0'
                    <= t[i] <= '9' || t[i] == '_' || t[i] == '-')
        },
        label(raw, what) is Ok ==> label(raw, what)->Ok_0 == trimmed(raw),
{
    let t = trimmed(raw);
    if forall|i: int|
        0 <= i < t.len() ==> ('a' <= #[trigger] t[i] <= 'z' || 'A' <= t[i] <= 'Z' || '0' <= t[i]
            <= '9' || t[i] == '_' || t[i] == '-') {
        assert forall|i: int| 0 <= i < t.len() implies is_label_char(#[trigger] t[i]) by {}
    } else {
        let i = choose|i: int|
            0 <= i < t.len() && !('a' <= #[trigger] t[i] <= 'z' || 'A' <= t[i] <= 'Z' || '0'
                <= t[i] <= '9' || t[i] == '_' || t[i] == '-');
        assert(!is_label_char(t[i]));
    }
}

/// Blanks, tabs, line feeds and carriage returns are white space; letters, digits
/// and the signs of ASCII are not.
pub proof fn lemma_white_space(c: char)
    ensures
        is_white_space(' '),
        is_white_space('\t'),
        is_white_space('\n'),
        is_white_space('\r'),
        '!' <= c <= '~' ==> !is_white_space(c),
{
}

/// Blanks around a text do not matter when it is trimmed.
pub proof fn lemma_blanks_around_are_trimmed(c: char, s: Seq<char>)
    requires
        is_white_space(c),
    ensures
        trimmed(seq![c] + s) == trimmed(s),
        s.len() > 0 && !is_white_space(s[0]) && !is_white_space(s.last()) ==> trimmed(s) == s,
        s.len() > 0 && !is_white_space(s[0]) ==> trimmed(s.push(c)) == trimmed(s),
        is_blank(seq![c]),
        is_blank(seq![]),
{
    let class = CharClass::Whitespace;
    assert((seq![c] + s).skip(1) =~= s);
    assert(trim_start_by(class, seq![c] + s) == trim_start_by(class, s));
    if s.len() > 0 && !is_white_space(s[0]) {
        assert(trim_start_by(class, s) == s);
        assert(trim_start_by(class, s.push(c)) == s.push(c));
        assert(s.push(c).take(s.push(c).len() - 1) =~= s);
    }
    assert(seq![c].skip(1) =~= seq![]);
    assert(trim_start_by(class, seq![c]) == trim_start_by(class, seq![c].skip(1)));
}

/// A word ends at white space, and white space before words does not matter.
pub proof fn lemma_first_word(word: Seq<char>, c: char, rest: Seq<char>)
    requires
        word.len() > 0,
        forall|i: int| 0 <= i < word.len() ==> !is_white_space(#[trigger] word[i]),
        is_white_space(c),
    ensures
        words(word.push(c) + rest) == seq![word] + words(rest),
        words(word) == seq![word],
        words(seq![c] + rest) == words(rest),
        words(seq![]).len() == 0,
{
    let s = word.push(c) + rest;
    lemma_word_ends(word, seq![c] + rest);
    assert(word + (seq![c] + rest) =~= s);
    assert(s[0] == word[0]);
    assert(s.take(word.len() as int) =~= word);
    assert(s.skip(word.len() as int) =~= seq![c] + rest);
    assert((seq![c] + rest).skip(1) =~= rest);
    assert(words(seq![c] + rest) == words(rest));
    assert(word_len(s) == word.len());
    assert(words(s) == seq![s.take(word.len() as int)] + words(s.skip(word.len() as int)));
    lemma_word_ends(word, seq![]);
    assert(word + seq![] =~= word);
    assert(word.take(word.len() as int) =~= word);
    assert(word.skip(word.len() as int) =~= seq![]);
    assert(words(seq![]) =~= seq![]);
    assert(words(word) =~= seq![word]);
}

proof fn lemma_word_ends(word: Seq<char>, rest: Seq<char>)
    requires
        forall|i: int| 0 <= i < word.len() ==> !is_white_space(#[trigger] word[i]),
        rest.len() == 0 || is_white_space(rest[0]),
    ensures
        word_len(word + rest) == word.len(),
    decreases word.len(),
{
    let s = word + rest;
    if word.len() > 0 {
        assert(s[0] == word[0]);
        assert(s.skip(1) =~= word.skip(1) + rest);
        assert forall|i: int| 0 <= i < word.skip(1).len() implies !is_white_space(
            #[trigger] word.skip(1)[i],
        ) by {
            assert(word.skip(1)[i] == word[i + 1]);
        }
        lemma_word_ends(word.skip(1), rest);
    } else {
        assert(s =~= rest);
    }
}

/// Parts are joined in order, with the separator between them and nowhere else.
pub proof fn lemma_parts_are_joined(parts: Seq<Seq<char>>, part: Seq<char>, sep: Seq<char>)
    ensures
        parts.len() > 0 ==> joined(parts.push(part), sep) == joined(parts, sep) + sep + part,
        joined(seq![part], sep) == part,
        joined(seq![], sep).len() == 0,
{
    assert(parts.push(part).drop_last() =~= parts);
}

/// The first place where a pattern stands is replaced, and then what is behind it
/// is looked at.
pub proof fn lemma_first_is_replaced(s: Seq<char>, pat: Seq<char>, rep: Seq<char>, i: int)
    requires
        pat.len() > 0,
        occurs_at(s, pat, i),
        forall|j: int| 0 <= j < i ==> !#[trigger] occurs_at(s, pat, j),
    ensures
        replaced(s, pat, rep) == s.take(i) + rep + replaced(s.skip(i + pat.len()), pat, rep),
{
    lemma_first_at(s, pat, 0);
}

/// The first characters of a text are all of them where there are no more.
pub proof fn lemma_first_chars(s: Seq<char>, n: nat)
    ensures
        first_chars(s, n).len() <= n,
        s.len() <= n ==> first_chars(s, n) == s,
        s.len() > n ==> first_chars(s, n).len() == n && first_chars(s, n) == s.subrange(
            0,
            n as int,
        ),
{
    if s.len() > n {
        assert(s.take(n as int) =~= s.subrange(0, n as int));
    }
}

} // verus!
