//! Paths whose parts are separated by slashes.
use crate::text;
use vstd::prelude::*;

verus! {

/// A path from the root.
pub open spec fn is_absolute(p: Seq<char>) -> bool {
    p.len() > 0 && p[0] == '/'
}

/// Whether a path starts at the root.
pub fn starts_at_root(p: &str) -> (r: bool)
    ensures
        r == is_absolute(p@),
{
    let v = text::chars_of(p);
    v.len() > 0 && v[0] == '/'
}

/// A path below another: a part that starts at the root stands for itself.
pub open spec fn path_joined(base: Seq<char>, part: Seq<char>) -> Seq<char> {
    if part.len() > 0 && part[0] == '/' {
        part
    } else if base.len() == 0 || base.last() == '/' {
        base + part
    } else {
        base + "/"@ + part
    }
}

/// A path below another.
pub fn path_join(base: &str, part: &str) -> (r: String)
    ensures
        r@ == path_joined(base@, part@),
{
    let p = text::chars_of(part);
    if p.len() > 0 && p[0] == '/' {
        return text::owned(part);
    }
    let b = text::chars_of(base);
    let mut r = text::owned(base);
    if b.len() > 0 && b[b.len() - 1] != '/' {
        r.append("/");
    }
    r.append(part);
    r
}

/// A path without slashes and parts of a single dot at its end.
pub open spec fn tail_trimmed(p: Seq<char>) -> Seq<char>
    decreases p.len(),
{
    if p.len() > 1 && p.last() == '/' {
        tail_trimmed(p.take(p.len() - 1))
    } else if p.len() > 1 && p.last() == '.' && p[p.len() - 2] == '/' {
        tail_trimmed(p.take(p.len() - 1))
    } else {
        p
    }
}

/// The position behind the last slash.
pub open spec fn last_part_at(p: Seq<char>) -> int
    decreases p.len(),
{
    if p.len() == 0 || p.last() == '/' {
        p.len() as int
    } else {
        last_part_at(p.take(p.len() - 1))
    }
}

/// The path of the directory that holds a file; there is none for the root and
/// for the empty path.
pub open spec fn parent(p: Seq<char>) -> Option<Seq<char>> {
    let t = tail_trimmed(p);
    if t.len() == 0 || t == seq!['/'] {
        None
    } else {
        Some(tail_trimmed(t.take(last_part_at(t))))
    }
}

/// The last part of a path; there is none where the path ends at the root, at
/// the current directory or at a parent.
pub open spec fn file_name(p: Seq<char>) -> Option<Seq<char>> {
    let t = tail_trimmed(p);
    let name = t.skip(last_part_at(t));
    if name.len() == 0 || name == seq!['.'] || name == seq!['.', '.'] {
        None
    } else {
        Some(name)
    }
}

/// The position of the last dot behind the first character, or the length.
pub open spec fn dot_at(name: Seq<char>) -> int {
    dot_before(name, name.len() as int)
}

/// The last position below `end` that holds a dot and is not the first; the
/// length where there is none.
pub open spec fn dot_before(name: Seq<char>, end: int) -> int
    decreases end,
{
    if end <= 1 {
        name.len() as int
    } else if name[end - 1] == '.' {
        end - 1
    } else {
        dot_before(name, end - 1)
    }
}

/// The file name without its extension.
pub open spec fn file_stem(p: Seq<char>) -> Option<Seq<char>> {
    match file_name(p) {
        Some(name) => Some(name.take(dot_at(name))),
        None => None,
    }
}

/// What follows the last dot of the file name, unless the dot is its start.
pub open spec fn extension(p: Seq<char>) -> Option<Seq<char>> {
    match file_name(p) {
        Some(name) => if dot_at(name) < name.len() {
            Some(name.skip(dot_at(name) + 1))
        } else {
            None
        },
        None => None,
    }
}

fn trim_tail(p: &str) -> (r: String)
    ensures
        r@ == tail_trimmed(p@),
{
    let v = text::chars_of(p);
    let mut end: usize = v.len();
    assert(v@.take(v@.len() as int) =~= v@);
    while end > 1 && (v[end - 1] == '/' || (v[end - 1] == '.' && v[end - 2] == '/'))
        invariant
            end <= v@.len(),
            tail_trimmed(v@.take(end as int)) == tail_trimmed(v@),
        decreases end,
    {
        assert(v@.take(end as int).take(end - 1) =~= v@.take(end - 1));
        end = end - 1;
    }
    assert(v@.subrange(0, end as int) =~= v@.take(end as int));
    text::string_of(&v, 0, end)
}

fn find_last_part(v: &Vec<char>) -> (r: usize)
    ensures
        r == last_part_at(v@),
        r <= v@.len(),
{
    let mut at: usize = v.len();
    assert(v@.take(v@.len() as int) =~= v@);
    while at > 0 && v[at - 1] != '/'
        invariant
            at <= v@.len(),
            last_part_at(v@.take(at as int)) == last_part_at(v@),
        decreases at,
    {
        assert(v@.take(at as int).take(at - 1) =~= v@.take(at - 1));
        at = at - 1;
    }
    at
}

/// The path of the directory that holds a file.
pub fn parent_of(p: &str) -> (r: Option<String>)
    ensures
        r.deep_view() == parent(p@),
{
    let t = trim_tail(p);
    let v = text::chars_of(t.as_str());
    if v.len() == 0 || (v.len() == 1 && v[0] == '/') {
        assert(t@.len() == 1 ==> t@ =~= seq![t@[0]]);
        return None;
    }
    let at = find_last_part(&v);
    let front = text::string_of(&v, 0, at);
    assert(front@ =~= t@.take(last_part_at(t@)));
    Some(trim_tail(front.as_str()))
}

/// The last part of a path.
pub fn file_name_of(p: &str) -> (r: Option<String>)
    ensures
        r.deep_view() == file_name(p@),
{
    let t = trim_tail(p);
    let v = text::chars_of(t.as_str());
    let at = find_last_part(&v);
    let name = text::string_of(&v, at, v.len());
    proof {
        assert(name@ =~= t@.skip(last_part_at(t@)));
        reveal_strlit(".");
        reveal_strlit("..");
        assert("."@ =~= seq!['.']);
        assert(".."@ =~= seq!['.', '.']);
    }
    if at == v.len() || text::same_text(name.as_str(), ".") || text::same_text(
        name.as_str(),
        "..",
    ) {
        None
    } else {
        Some(name)
    }
}

fn find_dot(v: &Vec<char>) -> (r: usize)
    ensures
        r == dot_at(v@),
        r <= v@.len(),
{
    let mut end: usize = v.len();
    while end > 1
        invariant
            end <= v@.len(),
            dot_before(v@, end as int) == dot_at(v@),
        decreases end,
    {
        if v[end - 1] == '.' {
            return end - 1;
        }
        end = end - 1;
    }
    v.len()
}

/// The file name without its extension.
pub fn file_stem_of(p: &str) -> (r: Option<String>)
    ensures
        r.deep_view() == file_stem(p@),
{
    match file_name_of(p) {
        Some(name) => {
            let v = text::chars_of(name.as_str());
            let at = find_dot(&v);
            assert(v@.subrange(0, at as int) =~= name@.take(at as int));
            Some(text::string_of(&v, 0, at))
        },
        None => None,
    }
}

/// What follows the last dot of the file name.
pub fn extension_of(p: &str) -> (r: Option<String>)
    ensures
        r.deep_view() == extension(p@),
{
    match file_name_of(p) {
        Some(name) => {
            let v = text::chars_of(name.as_str());
            let at = find_dot(&v);
            if at < v.len() {
                assert(v@.subrange(at + 1, v@.len() as int) =~= name@.skip(at + 1));
                Some(text::string_of(&v, at + 1, v.len()))
            } else {
                None
            }
        },
        None => None,
    }
}

// ---------------------------------------------------------------------------
// Parts

/// The texts between slashes.
pub open spec fn split_slashes(p: Seq<char>) -> Seq<Seq<char>>
    decreases p.len(),
{
    let k = text::index_of_char(p, '/');
    if 0 <= k < p.len() {
        seq![p.take(k)] + split_slashes(p.skip(k + 1))
    } else {
        seq![p]
    }
}

/// The texts between slashes.
pub fn split_at_slashes(p: &str) -> (r: Vec<String>)
    ensures
        r.deep_view() == split_slashes(p@),
{
    let v = text::chars_of(p);
    let mut out: Vec<String> = Vec::new();
    let mut at: usize = 0;
    proof {
        assert(p@.skip(0) =~= p@);
        assert(out.deep_view() + split_slashes(p@) =~= split_slashes(p@));
    }
    loop
        invariant
            v@ == p@,
            at <= v@.len(),
            out.deep_view() + split_slashes(p@.skip(at as int)) == split_slashes(p@),
        decreases v@.len() - at,
    {
        let ghost rest = p@.skip(at as int);
        let ghost before = out.deep_view();
        let i = text::find_char(&v, '/', at);
        proof {
            text::lemma_index_of_char(rest, '/');
        }
        let part = text::string_of(&v, at, i);
        proof {
            assert(part@ =~= rest.take(i - at));
        }
        let ghost model = part@;
        out.push(part);
        assert(out.deep_view() =~= before.push(model));
        if i < v.len() {
            proof {
                assert(rest.skip(i - at + 1) =~= p@.skip(i + 1));
                assert(out.deep_view() + split_slashes(p@.skip(i + 1)) =~= before + split_slashes(
                    rest,
                ));
            }
            at = i + 1;
        } else {
            proof {
                assert(rest.take(i - at) =~= rest);
                assert(out.deep_view() =~= before + split_slashes(rest));
            }
            return out;
        }
    }
}

/// The parts that name something: neither empty nor the current directory.
pub open spec fn naming(parts: Seq<Seq<char>>) -> Seq<Seq<char>>
    decreases parts.len(),
{
    if parts.len() == 0 {
        seq![]
    } else if parts.last().len() == 0 || parts.last() == seq!['.'] {
        naming(parts.drop_last())
    } else {
        naming(parts.drop_last()).push(parts.last())
    }
}

/// The named parts of a path.
pub open spec fn names(p: Seq<char>) -> Seq<Seq<char>> {
    naming(split_slashes(p))
}

/// The named parts of a path.
pub fn names_of(p: &str) -> (r: Vec<String>)
    ensures
        r.deep_view() == names(p@),
{
    let parts = split_at_slashes(p);
    let ghost all = parts.deep_view();
    let mut out: Vec<String> = Vec::new();
    let mut i: usize = 0;
    proof {
        assert(all.take(0) =~= seq![]);
        assert(out.deep_view() =~= seq![]);
        reveal_strlit(".");
        assert("."@ =~= seq!['.']);
    }
    while i < parts.len()
        invariant
            i <= parts@.len(),
            all == parts.deep_view(),
            "."@ == seq!['.'],
            out.deep_view() == naming(all.take(i as int)),
        decreases parts@.len() - i,
    {
        let ghost before = out.deep_view();
        proof {
            assert(all.take(i + 1).drop_last() =~= all.take(i as int));
            assert(all.take(i + 1).last() == parts@[i as int]@);
        }
        if text::char_count(parts[i].as_str()) > 0 && !text::same_text(parts[i].as_str(), ".") {
            let copy = parts[i].clone();
            out.push(copy);
            assert(out.deep_view() =~= before.push(copy@));
        }
        i = i + 1;
    }
    assert(all.take(all.len() as int) =~= all);
    out
}

/// One of the parts leads to a parent directory.
pub open spec fn climbs(p: Seq<char>) -> bool {
    names(p).contains(seq!['.', '.'])
}

/// Whether one of the parts leads to a parent directory.
pub fn has_parent_part(p: &str) -> (r: bool)
    ensures
        r == climbs(p@),
{
    let parts = names_of(p);
    let ghost all = parts.deep_view();
    let mut i: usize = 0;
    proof {
        reveal_strlit("..");
        assert(".."@ =~= seq!['.', '.']);
    }
    while i < parts.len()
        invariant
            i <= parts@.len(),
            all == parts.deep_view(),
            all == names(p@),
            ".."@ == seq!['.', '.'],
            forall|k: int| 0 <= k < i ==> #[trigger] all[k] != seq!['.', '.'],
        decreases parts@.len() - i,
    {
        assert(all[i as int] == parts@[i as int]@);
        if text::same_text(parts[i].as_str(), "..") {
            return true;
        }
        i = i + 1;
    }
    false
}

/// `p` is `base` or lies below it: the named parts of `base` come first.
pub open spec fn is_within(base: Seq<char>, p: Seq<char>) -> bool {
    &&& is_absolute(base) == is_absolute(p)
    &&& names(base).len() <= names(p).len()
    &&& names(p).take(names(base).len() as int) == names(base)
}

/// Whether `p` is `base` or lies below it.
pub fn lies_within(base: &str, p: &str) -> (r: bool)
    ensures
        r == is_within(base@, p@),
{
    if starts_at_root(base) != starts_at_root(p) {
        return false;
    }
    let a = names_of(base);
    let b = names_of(p);
    let ghost x = a.deep_view();
    let ghost y = b.deep_view();
    if a.len() > b.len() {
        return false;
    }
    let mut i: usize = 0;
    while i < a.len()
        invariant
            i <= a@.len() <= b@.len(),
            x == a.deep_view(),
            y == b.deep_view(),
            x == names(base@),
            y == names(p@),
            forall|k: int| 0 <= k < i ==> #[trigger] x[k] == y[k],
        decreases a@.len() - i,
    {
        assert(x[i as int] == a@[i as int]@);
        assert(y[i as int] == b@[i as int]@);
        if !text::same_text(a[i].as_str(), b[i].as_str()) {
            assert(y.take(x.len() as int)[i as int] != x[i as int]);
            return false;
        }
        i = i + 1;
    }
    assert(y.take(x.len() as int) =~= x);
    true
}

proof fn lemma_named_part(parts: Seq<Seq<char>>, x: Seq<char>)
    requires
        naming(parts).contains(x),
    ensures
        parts.contains(x),
    decreases parts.len(),
{
    if parts.len() > 0 {
        let before = naming(parts.drop_last());
        let i = choose|i: int| 0 <= i < naming(parts).len() && naming(parts)[i] == x;
        if i < before.len() {
            assert(before[i] == x);
            lemma_named_part(parts.drop_last(), x);
            let j = choose|j: int| 0 <= j < parts.drop_last().len() && parts.drop_last()[j] == x;
            assert(parts[j] == x);
        } else {
            assert(parts[parts.len() - 1] == x);
        }
    }
}

proof fn lemma_split_part(p: Seq<char>, x: Seq<char>)
    requires
        split_slashes(p).contains(x),
    ensures
        text::has_text(p, x),
    decreases p.len(),
{
    let k = text::index_of_char(p, '/');
    let parts = split_slashes(p);
    let i = choose|i: int| 0 <= i < parts.len() && parts[i] == x;
    if 0 <= k < p.len() {
        let rest = p.skip(k + 1);
        if i == 0 {
            assert(p.subrange(0, k) =~= p.take(k));
            assert(text::occurs_at(p, x, 0));
        } else {
            assert(split_slashes(rest)[i - 1] == x);
            lemma_split_part(rest, x);
            let j = choose|j: int| text::occurs_at(rest, x, j);
            assert(p.subrange(j + k + 1, j + k + 1 + x.len()) =~= rest.subrange(j, j + x.len()));
            assert(text::occurs_at(p, x, j + k + 1));
        }
    } else {
        assert(p.subrange(0, p.len() as int) =~= p);
        assert(text::occurs_at(p, x, 0));
    }
}

/// A path in which two dots never stand side by side leads to no parent
/// directory.
pub proof fn lemma_no_dots_no_climbing(p: Seq<char>)
    requires
        !text::has_text(p, ".."@),
    ensures
        !climbs(p),
{
    reveal_strlit("..");
    let up = seq!['.', '.'];
    assert(".."@ =~= up);
    if climbs(p) {
        lemma_named_part(split_slashes(p), up);
        lemma_split_part(p, up);
    }
}

/// The parts of two paths with a slash between them are those of both.
proof fn lemma_split_joined(a: Seq<char>, b: Seq<char>)
    ensures
        split_slashes(a.push('/') + b) == split_slashes(a) + split_slashes(b),
    decreases a.len(),
{
    let s = a.push('/') + b;
    let k = text::index_of_char(s, '/');
    let j = text::index_of_char(a, '/');
    text::lemma_index_of_char(s, '/');
    text::lemma_index_of_char(a, '/');
    assert(s[a.len() as int] == '/');
    assert(k == j) by {
        if k < j {
            assert(s[k] == a[k]);
        }
        if j < k {
            assert(s[j] == '/');
        }
    }
    if j < a.len() {
        assert(s.take(k) =~= a.take(j));
        assert(s.skip(k + 1) =~= a.skip(j + 1).push('/') + b);
        lemma_split_joined(a.skip(j + 1), b);
        assert(seq![a.take(j)] + (split_slashes(a.skip(j + 1)) + split_slashes(b)) =~= (seq![
            a.take(j),
        ] + split_slashes(a.skip(j + 1))) + split_slashes(b));
    } else {
        assert(s.take(k) =~= a);
        assert(s.skip(k + 1) =~= b);
        assert(a.take(j) =~= a);
        assert(split_slashes(a) =~= seq![a]);
    }
}

/// The named parts of two lists are those of both.
proof fn lemma_naming_joined(a: Seq<Seq<char>>, b: Seq<Seq<char>>)
    ensures
        naming(a + b) == naming(a) + naming(b),
    decreases b.len(),
{
    if b.len() == 0 {
        assert(a + b =~= a);
    } else {
        assert((a + b).drop_last() =~= a + b.drop_last());
        lemma_naming_joined(a, b.drop_last());
        assert(naming(a + b) =~= naming(a) + naming(b));
    }
}

/// A path that is named from a directory lies in it: its named parts are those
/// of the directory, and then its own.
pub proof fn lemma_joined_path_lies_within(base: Seq<char>, part: Seq<char>)
    requires
        !is_absolute(part),
    ensures
        names(path_joined(base, part)) == names(base) + names(part),
        is_within(base, path_joined(base, part)),
{
    reveal_strlit("/");
    reveal_with_fuel(naming, 2);
    let joined = path_joined(base, part);
    if base.len() == 0 {
        assert(joined =~= part);
        assert(split_slashes(base) =~= seq![base]);
        assert(names(base) =~= seq![]);
    } else if base.last() == '/' {
        let a = base.drop_last();
        let none = Seq::<char>::empty();
        assert(base =~= a.push('/') + none);
        assert(joined =~= a.push('/') + part);
        lemma_split_joined(a, none);
        lemma_split_joined(a, part);
        lemma_naming_joined(split_slashes(a), split_slashes(none));
        lemma_naming_joined(split_slashes(a), split_slashes(part));
        assert(split_slashes(none) =~= seq![none]);
        assert(naming(seq![none]) =~= seq![]);
        assert(names(base) =~= naming(split_slashes(a)));
        assert(joined[0] == base[0]);
    } else {
        assert(joined =~= base.push('/') + part);
        lemma_split_joined(base, part);
        lemma_naming_joined(split_slashes(base), split_slashes(part));
        assert(joined[0] == base[0]);
    }
    assert((names(base) + names(part)).take(names(base).len() as int) =~= names(base));
}

/// Files with different names in one directory are different.
pub proof fn lemma_names_have_own_files(
    dir: Seq<char>,
    name: Seq<char>,
    other: Seq<char>,
    ending: Seq<char>,
)
    requires
        name.len() > 0 ==> name[0] != '/',
        other.len() > 0 ==> other[0] != '/',
        ending.len() > 0,
        ending[0] != '/',
        path_joined(dir, name + ending) == path_joined(dir, other + ending),
    ensures
        name == other,
{
    reveal_strlit("/");
    let a = name + ending;
    let b = other + ending;
    assert(a[0] == (if name.len() > 0 {
        name[0]
    } else {
        ending[0]
    }));
    assert(b[0] == (if other.len() > 0 {
        other[0]
    } else {
        ending[0]
    }));
    let base = if dir.len() == 0 || dir.last() == '/' {
        dir
    } else {
        dir + "/"@
    };
    assert((base + a).skip(base.len() as int) =~= a);
    assert((base + b).skip(base.len() as int) =~= b);
    assert(a.take(a.len() - ending.len()) =~= name);
    assert(b.take(b.len() - ending.len()) =~= other);
}

/// A step to a parent directory is seen wherever it stands in a path.
pub proof fn lemma_climbing_is_seen(a: Seq<char>, b: Seq<char>)
    ensures
        climbs(seq!['.', '.']),
        climbs(a.push('/') + seq!['.', '.']),
        climbs(seq!['.', '.'].push('/') + b),
        climbs(a.push('/') + (seq!['.', '.'].push('/') + b)),
        names(a.push('/') + b) == names(a) + names(b),
{
    let up = seq!['.', '.'];
    text::lemma_index_of_char(up, '/');
    assert(split_slashes(up) =~= seq![up]) by {
        let k = text::index_of_char(up, '/');
        if 0 <= k < up.len() {
            assert(up[k] == '/');
        }
    }
    reveal_with_fuel(naming, 2);
    assert(seq![up].drop_last() =~= seq![]);
    assert(naming(seq![up]) =~= seq![up]);
    assert(names(up)[0] == up);
    lemma_split_joined(a, b);
    lemma_naming_joined(split_slashes(a), split_slashes(b));
    lemma_split_joined(a, up);
    lemma_naming_joined(split_slashes(a), split_slashes(up));
    let one = names(a.push('/') + up);
    assert(one[names(a).len() as int] == up);
    lemma_split_joined(up, b);
    lemma_naming_joined(split_slashes(up), split_slashes(b));
    let two = names(up.push('/') + b);
    assert(two[0] == up);
    lemma_split_joined(a, up.push('/') + b);
    lemma_naming_joined(split_slashes(a), split_slashes(up.push('/') + b));
    let three = names(a.push('/') + (up.push('/') + b));
    assert(three[names(a).len() as int] == two[0]);
}

/// A path lies in a directory exactly where both start alike and its named parts
/// begin with those of the directory; so it lies in itself.
pub proof fn lemma_what_lies_within(base: Seq<char>, p: Seq<char>, i: int)
    ensures
        is_within(p, p),
        is_within(base, p) && 0 <= i < names(base).len() ==> i < names(p).len() && names(p)[i]
            == names(base)[i],
        is_within(base, p) ==> (base.len() > 0 && base[0] == '/' <==> p.len() > 0 && p[0] == '/'),
{
    assert(names(p).take(names(p).len() as int) =~= names(p));
    if is_within(base, p) && 0 <= i < names(base).len() {
        assert(names(p).take(names(base).len() as int)[i] == names(p)[i]);
    }
}

/// A path is put behind a directory with one slash between them, and a path from
/// the root stands for itself.
pub proof fn lemma_paths_are_joined(base: Seq<char>, part: Seq<char>)
    ensures
        part.len() > 0 && part[0] == '/' ==> path_joined(base, part) == part,
        !(part.len() > 0 && part[0] == '/') && base.len() > 0 && base.last() != '/' ==> path_joined(
            base,
            part,
        ) == base.push('/') + part,
        !(part.len() > 0 && part[0] == '/') && base.len() > 0 && base.last() == '/' ==> path_joined(
            base,
            part,
        ) == base + part,
        !(part.len() > 0 && part[0] == '/') && base.len() == 0 ==> path_joined(base, part) == part,
{
    reveal_strlit("/");
    assert(base + "/"@ =~= base.push('/'));
    if base.len() == 0 {
        assert(base + part =~= part);
    }
}

/// A file with an ending, in a directory: neither the directory nor the name ends
/// in what is passed over in paths, and no part of the name is a path.
pub open spec fn is_plain_file(dir: Seq<char>, stem: Seq<char>, ending: Seq<char>) -> bool {
    &&& dir.len() > 1
    &&& dir.last() != '/'
    &&& dir.last() != '.'
    &&& stem.len() > 0
    &&& !stem.contains('/')
    &&& ending.len() > 0
    &&& !ending.contains('/')
    &&& !ending.contains('.')
}

/// The directory, the name and the ending of a file are found in its path.
pub proof fn lemma_parts_of_a_file(dir: Seq<char>, stem: Seq<char>, ending: Seq<char>)
    requires
        is_plain_file(dir, stem, ending),
    ensures
        ({
            let p = dir.push('/') + stem.push('.') + ending;
            &&& parent(p) == Some(dir)
            &&& file_name(p) == Some(stem.push('.') + ending)
            &&& file_stem(p) == Some(stem)
            &&& extension(p) == Some(ending)
        }),
{
    let name = stem.push('.') + ending;
    let p = dir.push('/') + stem.push('.') + ending;
    assert(p =~= dir.push('/') + name);
    assert(p.last() == ending.last());
    assert(ending.contains(ending.last()));
    assert(tail_trimmed(p) == p);
    assert forall|i: int| 0 <= i < name.len() implies #[trigger] name[i] != '/' by {
        if i < stem.len() {
            assert(stem.contains(stem[i]));
        } else if i > stem.len() {
            assert(name[i] == ending[i - stem.len() - 1]);
            assert(ending.contains(name[i]));
        }
    }
    lemma_last_part(dir.push('/'), name);
    assert(p.take(dir.len() as int + 1) =~= dir.push('/'));
    assert(dir.push('/').take(dir.len() as int) =~= dir);
    assert(tail_trimmed(dir) == dir);
    assert(tail_trimmed(dir.push('/')) == dir);
    assert(p.skip(dir.len() as int + 1) =~= name);
    assert(name.len() >= 3);
    lemma_last_dot(stem, ending, name.len() as int);
    assert(name.take(stem.len() as int) =~= stem);
    assert(name.skip(stem.len() as int + 1) =~= ending);
    assert(p.len() > 1);
    assert(parent(p) == Some(dir));
}

proof fn lemma_last_part(head: Seq<char>, name: Seq<char>)
    requires
        head.len() > 0,
        head.last() == '/',
        forall|i: int| 0 <= i < name.len() ==> #[trigger] name[i] != '/',
    ensures
        last_part_at(head + name) == head.len(),
    decreases name.len(),
{
    let p = head + name;
    if name.len() == 0 {
        assert(p =~= head);
    } else {
        assert(p.last() == name.last());
        assert(p.take(p.len() - 1) =~= head + name.drop_last());
        lemma_last_part(head, name.drop_last());
    }
}

proof fn lemma_last_dot(stem: Seq<char>, ending: Seq<char>, end: int)
    requires
        stem.len() > 0,
        !ending.contains('.'),
        stem.len() < end <= stem.len() + 1 + ending.len(),
    ensures
        dot_before(stem.push('.') + ending, end) == stem.len(),
    decreases end,
{
    let name = stem.push('.') + ending;
    if end - 1 > stem.len() {
        assert(name[end - 1] == ending[end - 2 - stem.len()]);
        assert(ending.contains(name[end - 1]));
        lemma_last_dot(stem, ending, end - 1);
    }
}

} // verus!
