//! Paths: components, the normal form, and the split into parent directory and base name.
//!
//! A path is read as the sequence of its characters. Its components are the maximal runs of
//! characters other than `/`; the normal form writes each component after one `/`, and is `/`
//! alone where there is no component.
use vstd::prelude::*;

verus! {

/// How many characters `s` has before its first `/`, or in all where it has none.
pub open spec fn segment_len(s: Seq<char>) -> nat
    decreases s.len(),
{
    if s.len() == 0 || s[0] == '/' {
        0
    } else {
        1 + segment_len(s.skip(1))
    }
}

/// A path that begins with `/`.
pub open spec fn is_absolute(s: Seq<char>) -> bool {
    s.len() > 0 && s[0] == '/'
}

/// The components of a path: its maximal runs of characters other than `/`.
pub open spec fn components(s: Seq<char>) -> Seq<Seq<char>>
    decreases s.len(),
{
    if s.len() == 0 {
        Seq::empty()
    } else if s[0] == '/' {
        components(s.skip(1))
    } else {
        let n = segment_len(s);
        if 0 < n <= s.len() {
            seq![s.take(n as int)] + components(s.skip(n as int))
        } else {
            Seq::empty()
        }
    }
}

/// Each part after one `/`.
pub open spec fn absolute(parts: Seq<Seq<char>>) -> Seq<char>
    decreases parts.len(),
{
    if parts.len() == 0 {
        Seq::empty()
    } else {
        absolute(parts.drop_last()).push('/') + parts.last()
    }
}

/// The path of the root directory.
pub open spec fn root() -> Seq<char> {
    seq!['/']
}

/// The normal form of a path.
pub open spec fn normalize(s: Seq<char>) -> Seq<char> {
    if components(s).len() == 0 {
        root()
    } else {
        absolute(components(s))
    }
}

/// The position of the last `/`, or -1 where there is none.
pub open spec fn last_slash(s: Seq<char>) -> int
    decreases s.len(),
{
    if s.len() == 0 {
        -1
    } else if s.last() == '/' {
        s.len() - 1
    } else {
        last_slash(s.drop_last())
    }
}

/// What stands before the last `/`, or the root where that is nothing.
pub open spec fn parent(s: Seq<char>) -> Seq<char> {
    if last_slash(s) <= 0 {
        root()
    } else {
        s.take(last_slash(s))
    }
}

/// What stands after the last `/`; the first character is left out where that `/`, if there is
/// one, opens the path.
pub open spec fn file_name(s: Seq<char>) -> Seq<char> {
    if last_slash(s) <= 0 {
        s.skip(1)
    } else {
        s.skip(last_slash(s) + 1)
    }
}

/// What stands after the last `/`, or the whole path where there is none.
pub open spec fn last_segment(s: Seq<char>) -> Seq<char> {
    s.skip(last_slash(s) + 1)
}

/// A component: some characters, none of them a `/`.
pub open spec fn is_component(s: Seq<char>) -> bool {
    &&& s.len() > 0
    &&& !s.contains('/')
}

pub proof fn lemma_segment_len(s: Seq<char>)
    ensures
        segment_len(s) <= s.len(),
        forall|i: int| 0 <= i < segment_len(s) ==> s[i] != '/',
        segment_len(s) < s.len() ==> s[segment_len(s) as int] == '/',
    decreases s.len(),
{
    if s.len() > 0 && s[0] != '/' {
        let rest = s.skip(1);
        lemma_segment_len(rest);
        assert forall|i: int| 0 <= i < segment_len(s) implies s[i] != '/' by {
            if i > 0 {
                assert(rest[i - 1] == s[i]);
            }
        }
    }
}

/// The segment of a text of known shape: `n` characters other than `/`, and a `/` or the end.
pub proof fn lemma_segment_is(s: Seq<char>, n: nat)
    requires
        n <= s.len(),
        forall|i: int| 0 <= i < n ==> s[i] != '/',
        n < s.len() ==> s[n as int] == '/',
    ensures
        segment_len(s) == n,
{
    lemma_segment_len(s);
    if segment_len(s) < n {
        assert(s[segment_len(s) as int] == '/');
    }
    if segment_len(s) > n {
        assert(s[n as int] != '/');
    }
}

pub proof fn lemma_components_are(s: Seq<char>)
    ensures
        forall|i: int| 0 <= i < components(s).len() ==> is_component(#[trigger] components(s)[i]),
    decreases s.len(),
{
    if s.len() > 0 {
        if s[0] == '/' {
            lemma_components_are(s.skip(1));
            assert(components(s) == components(s.skip(1)));
        } else {
            lemma_segment_len(s);
            let n = segment_len(s) as int;
            lemma_components_are(s.skip(n));
            assert(is_component(s.take(n))) by {
                if s.take(n).contains('/') {
                    let i = choose|i: int| 0 <= i < n && s.take(n)[i] == '/';
                    assert(s[i] == '/');
                }
            }
            assert forall|i: int| 0 <= i < components(s).len() implies is_component(
                #[trigger] components(s)[i],
            ) by {
                if i > 0 {
                    assert(components(s)[i] == components(s.skip(n))[i - 1]);
                } else {
                    assert(components(s)[i] == s.take(n));
                }
            }
        }
    }
}

pub proof fn lemma_no_components()
    ensures
        components(Seq::empty()) == Seq::<Seq<char>>::empty(),
        components(root()) == Seq::<Seq<char>>::empty(),
{
    assert(root().skip(1) =~= Seq::<char>::empty());
    assert(components(Seq::empty()) =~= Seq::<Seq<char>>::empty());
}

/// The root is its own directory.
pub proof fn lemma_root_parent()
    ensures
        parent(root()) == root(),
{
    reveal_with_fuel(last_slash, 2);
    assert(root().take(0) =~= Seq::<char>::empty());
}

/// One component is its own only component.
pub proof fn lemma_components_one(s: Seq<char>)
    requires
        is_component(s),
    ensures
        components(s) == seq![s],
{
    assert forall|i: int| 0 <= i < s.len() implies s[i] != '/' by {
        assert(s.contains(s[i]));
    }
    lemma_segment_is(s, s.len());
    assert(s.take(s.len() as int) =~= s);
    assert(s.skip(s.len() as int) =~= Seq::<char>::empty());
    lemma_no_components();
    assert(components(s) =~= seq![s]);
}

/// A `/` separates: the components of what stands before it are followed by those of the rest.
pub proof fn lemma_components_join(a: Seq<char>, b: Seq<char>)
    ensures
        components(a.push('/') + b) == components(a) + components(b),
    decreases a.len(),
{
    let s = a.push('/') + b;
    if a.len() == 0 {
        assert(s.skip(1) =~= b);
        assert(components(a) + components(b) =~= components(b));
    } else if a[0] == '/' {
        assert(s.skip(1) =~= a.skip(1).push('/') + b);
        lemma_components_join(a.skip(1), b);
    } else {
        lemma_segment_len(a);
        let n = segment_len(a);
        assert forall|i: int| 0 <= i < n implies s[i] != '/' by {
            assert(s[i] == a[i]);
        }
        lemma_segment_is(s, n);
        assert(s.take(n as int) =~= a.take(n as int));
        assert(s.skip(n as int) =~= a.skip(n as int).push('/') + b);
        lemma_components_join(a.skip(n as int), b);
        assert(components(s) =~= components(a) + components(b));
    }
}

/// Writing components after slashes and reading them back gives the same components.
pub proof fn lemma_components_of_absolute(parts: Seq<Seq<char>>)
    requires
        forall|i: int| 0 <= i < parts.len() ==> is_component(#[trigger] parts[i]),
    ensures
        components(absolute(parts)) == parts,
    decreases parts.len(),
{
    if parts.len() > 0 {
        let init = parts.drop_last();
        assert forall|i: int| 0 <= i < init.len() implies is_component(#[trigger] init[i]) by {
            assert(init[i] == parts[i]);
        }
        lemma_components_of_absolute(init);
        lemma_components_join(absolute(init), parts.last());
        lemma_components_one(parts.last());
        assert(components(absolute(parts)) =~= parts);
    }
}

/// The normal form has the components of the path it was made from.
pub proof fn normalize_keeps_components(s: Seq<char>)
    ensures
        components(normalize(s)) == components(s),
{
    lemma_components_are(s);
    if components(s).len() == 0 {
        lemma_no_components();
        assert(components(root()) =~= components(s));
    } else {
        lemma_components_of_absolute(components(s));
    }
}

/// Normalizing twice is normalizing once.
pub proof fn normalize_is_idempotent(s: Seq<char>)
    ensures
        normalize(normalize(s)) == normalize(s),
{
    normalize_keeps_components(s);
}

/// Two paths have the same normal form exactly where they have the same components.
pub proof fn normalize_identifies_by_components(s: Seq<char>, t: Seq<char>)
    ensures
        normalize(s) == normalize(t) <==> components(s) == components(t),
{
    normalize_keeps_components(s);
    normalize_keeps_components(t);
}

proof fn lemma_absolute_shape(parts: Seq<Seq<char>>)
    requires
        parts.len() > 0,
        forall|i: int| 0 <= i < parts.len() ==> is_component(#[trigger] parts[i]),
    ensures
        absolute(parts).len() > 1,
        absolute(parts)[0] == '/',
        absolute(parts).last() != '/',
        forall|i: int|
            0 <= i < absolute(parts).len() - 1 && absolute(parts)[i] == '/'
                ==> #[trigger] absolute(parts)[i + 1] != '/',
    decreases parts.len(),
{
    let init = parts.drop_last();
    let last = parts.last();
    let s = absolute(parts);
    let a = absolute(init);
    assert(is_component(parts[parts.len() - 1]));
    assert forall|i: int| 0 <= i < last.len() implies last[i] != '/' by {
        assert(last.contains(last[i]));
    }
    assert(s.last() == last[last.len() - 1]);
    if init.len() > 0 {
        assert forall|i: int| 0 <= i < init.len() implies is_component(#[trigger] init[i]) by {
            assert(init[i] == parts[i]);
        }
        lemma_absolute_shape(init);
        assert(s[0] == a[0]);
    }
    assert forall|i: int| 0 <= i < s.len() - 1 && s[i] == '/' implies #[trigger] s[i + 1]
        != '/' by {
        if i + 1 < a.len() {
            assert(s[i] == a[i] && s[i + 1] == a[i + 1]);
        } else if i + 1 == a.len() {
            assert(s[i] == a.last());
        } else {
            assert(s[i + 1] == last[i - a.len()]);
        }
    }
}

/// A normal form begins with `/`, never has two slashes in a row, and ends with `/` only where it
/// is the root.
pub proof fn normalize_has_no_redundant_slash(s: Seq<char>)
    ensures
        is_absolute(normalize(s)),
        normalize(s).last() == '/' ==> normalize(s) == root(),
        forall|i: int|
            0 <= i < normalize(s).len() - 1 && normalize(s)[i] == '/'
                ==> #[trigger] normalize(s)[i + 1] != '/',
{
    lemma_components_are(s);
    if components(s).len() > 0 {
        lemma_absolute_shape(components(s));
    }
}

/// The last `/` of a text of known shape.
pub proof fn lemma_last_slash_is(a: Seq<char>, b: Seq<char>)
    requires
        !b.contains('/'),
    ensures
        last_slash(a.push('/') + b) == a.len(),
    decreases b.len(),
{
    let s = a.push('/') + b;
    if b.len() == 0 {
        assert(s =~= a.push('/'));
    } else {
        assert(b.contains(b.last()));
        assert(s.drop_last() =~= a.push('/') + b.drop_last());
        assert(!b.drop_last().contains('/')) by {
            if b.drop_last().contains('/') {
                let i = choose|i: int| 0 <= i < b.drop_last().len() && b.drop_last()[i] == '/';
                assert(b[i] == '/');
            }
        }
        lemma_last_slash_is(a, b.drop_last());
    }
}

pub proof fn lemma_last_slash(s: Seq<char>)
    ensures
        -1 <= last_slash(s) < s.len(),
        last_slash(s) >= 0 ==> s[last_slash(s)] == '/',
        forall|i: int| last_slash(s) < i < s.len() ==> s[i] != '/',
    decreases s.len(),
{
    if s.len() > 0 && s.last() != '/' {
        lemma_last_slash(s.drop_last());
        assert forall|i: int| last_slash(s) < i < s.len() implies s[i] != '/' by {
            if i < s.len() - 1 {
                assert(s.drop_last()[i] == s[i]);
            }
        }
    }
}

/// Splitting a normal form other than the root gives a base name that is a component, a parent
/// that is in normal form, and the components of the two, in this order, are those of the path.
pub proof fn split_of_normalized(s: Seq<char>)
    requires
        normalize(s) != root(),
    ensures
        is_component(file_name(normalize(s))),
        normalize(parent(normalize(s))) == parent(normalize(s)),
        components(parent(normalize(s))).push(file_name(normalize(s))) == components(s),
        last_segment(normalize(s)) == file_name(normalize(s)),
{
    let parts = components(s);
    let p = normalize(s);
    lemma_components_are(s);
    let init = parts.drop_last();
    let a = absolute(init);
    let b = parts.last();
    assert(is_component(parts[parts.len() - 1]));
    lemma_last_slash_is(a, b);
    assert(p == a.push('/') + b);
    assert(p.skip(a.len() as int + 1) =~= b);
    assert forall|i: int| 0 <= i < init.len() implies is_component(#[trigger] init[i]) by {
        assert(init[i] == parts[i]);
    }
    if init.len() == 0 {
        lemma_no_components();
        assert(components(root()) =~= init);
        assert(parts =~= seq![b]);
        assert(components(parent(p)).push(b) =~= parts);
        assert(p.skip(1) =~= b);
    } else {
        lemma_absolute_shape(init);
        assert(p.take(a.len() as int) =~= a);
        lemma_components_of_absolute(init);
        assert(init.push(b) =~= parts);
    }
}

/// The characters of a text.
fn chars_of(s: &str) -> (v: Vec<char>)
    ensures
        v@ == s@,
{
    let mut v: Vec<char> = Vec::new();
    for c in it: s.chars()
        invariant
            it.seq() == s@,
            v@ == s@.take(it.index()),
    {
        proof {
            assert(s@.take(it.index() + 1) =~= s@.take(it.index()).push(s@[it.index()]));
        }
        v.push(c);
    }
    assert(s@.take(s@.len() as int) =~= s@);
    v
}

/// Whether a path is the root.
pub fn is_root(path: &str) -> (r: bool)
    ensures
        r == (path@ == root()),
{
    if path.unicode_len() == 1 && path.get_char(0) == '/' {
        assert(path@ =~= root());
        true
    } else {
        false
    }
}

/// The components of a path.
pub fn split_components(path: &str) -> (parts: Vec<String>)
    ensures
        parts@.map_values(|p: String| p@) == components(path@),
{
    let chars = chars_of(path);
    let mut parts: Vec<String> = Vec::new();
    let mut i: usize = 0;
    let ghost p = path@;
    proof {
        assert(p.skip(0) =~= p);
        assert(parts@.map_values(|p: String| p@) =~= Seq::<Seq<char>>::empty());
    }
    while i < chars.len()
        invariant
            p == path@,
            chars@ == p,
            i <= chars.len(),
            parts@.map_values(|p: String| p@) + components(p.skip(i as int)) == components(p),
        decreases chars.len() - i,
    {
        let ghost rest = p.skip(i as int);
        if chars[i] == '/' {
            proof {
                assert(rest.skip(1) =~= p.skip(i + 1));
            }
            i = i + 1;
        } else {
            let start: usize = i;
            i = i + 1;
            while i < chars.len() && chars[i] != '/'
                invariant
                    chars@ == p,
                    start < i <= chars.len(),
                    forall|j: int| start <= j < i ==> p[j] != '/',
                decreases chars.len() - i,
            {
                i = i + 1;
            }
            let segment = path.substring_char(start, i);
            let ghost before = parts@.map_values(|p: String| p@);
            proof {
                let n = (i - start) as nat;
                assert forall|j: int| 0 <= j < n implies rest[j] != '/' by {
                    assert(rest[j] == p[start + j]);
                }
                lemma_segment_is(rest, n);
                assert(rest.take(n as int) =~= segment@);
                assert(rest.skip(n as int) =~= p.skip(i as int));
            }
            parts.push(String::from_str(segment));
            proof {
                let after = parts@.map_values(|p: String| p@);
                assert(after =~= before.push(segment@));
                assert(after + components(p.skip(i as int)) =~= before + (seq![segment@]
                    + components(p.skip(i as int))));
            }
        }
    }
    proof {
        assert(p.skip(i as int) =~= Seq::<char>::empty());
        assert(parts@.map_values(|p: String| p@) + Seq::<Seq<char>>::empty() =~= parts@.map_values(
            |p: String| p@,
        ));
    }
    parts
}

/// Normalize a path by removing redundant slashes.
pub fn normalize_path(path: &str) -> (r: String)
    ensures
        r@ == normalize(path@),
        is_absolute(r@),
{
    proof {
        normalize_has_no_redundant_slash(path@);
    }
    let parts = split_components(path);
    let ghost texts = parts@.map_values(|p: String| p@);
    if parts.len() == 0 {
        assert(texts.len() == 0);
        let r = String::from_str("/");
        proof {
            reveal_strlit("/");
            assert(r@ =~= root());
        }
        return r;
    }
    let mut r = String::new();
    let mut i: usize = 0;
    assert(texts.take(0) =~= Seq::<Seq<char>>::empty());
    while i < parts.len()
        invariant
            i <= parts.len(),
            texts == parts@.map_values(|p: String| p@),
            r@ == absolute(texts.take(i as int)),
        decreases parts.len() - i,
    {
        r.append("/");
        r.append(parts[i].as_str());
        proof {
            reveal_strlit("/");
            let upto = texts.take(i + 1);
            assert(upto.drop_last() =~= texts.take(i as int));
            assert(upto.last() == parts[i as int]@);
            assert(r@ =~= absolute(upto));
        }
        i = i + 1;
    }
    assert(texts.take(i as int) =~= texts);
    assert(texts.len() > 0);
    r
}

/// The position of the last `/`, if there is one.
fn rfind_slash(chars: &Vec<char>) -> (r: Option<usize>)
    ensures
        match r {
            Some(n) => last_slash(chars@) == n,
            None => last_slash(chars@) == -1,
        },
{
    let mut n: usize = chars.len();
    assert(chars@.take(n as int) =~= chars@);
    while n > 0
        invariant
            n <= chars.len(),
            last_slash(chars@) == last_slash(chars@.take(n as int)),
        decreases n,
    {
        proof {
            let upto = chars@.take(n as int);
            assert(upto.last() == chars@[n - 1]);
            assert(upto.drop_last() =~= chars@.take(n - 1));
        }
        if chars[n - 1] == '/' {
            return Some(n - 1);
        }
        n = n - 1;
    }
    None
}

/// Split a normalized path into parent directory and base name.
///
/// Where no `/` stands after the first character, that character is dropped; it must then be one
/// byte long.
pub fn split_dir_file(path: &str) -> (r: (String, String))
    requires
        path@.len() > 0,
        last_slash(path@) > 0 || path@[0] as int <= 0x7f,
    ensures
        r.0@ == parent(path@),
        r.1@ == file_name(path@),
{
    let chars = chars_of(path);
    let n: usize = match rfind_slash(&chars) {
        Some(n) => n,
        None => 0,
    };
    proof {
        lemma_last_slash(path@);
        reveal_strlit("/");
    }
    if n == 0 {
        let dir = String::from_str("/");
        assert(dir@ =~= root());
        let name = path.substring_char(1, chars.len());
        assert(name@ =~= path@.skip(1));
        (dir, String::from_str(name))
    } else {
        assert(n < chars.len());
        let dir = path.substring_char(0, n);
        let name = path.substring_char(n + 1, chars.len());
        assert(dir@ =~= path@.take(n as int));
        assert(name@ =~= path@.skip(n + 1));
        (String::from_str(dir), String::from_str(name))
    }
}

/// What stands after the last `/` of a path.
pub fn base_name(path: &str) -> (r: String)
    ensures
        r@ == last_segment(path@),
{
    let chars = chars_of(path);
    proof {
        lemma_last_slash(path@);
    }
    let start: usize = match rfind_slash(&chars) {
        Some(n) => {
            assert(n < chars.len());
            n + 1
        },
        None => 0,
    };
    let name = path.substring_char(start, chars.len());
    assert(name@ =~= path@.skip(start as int));
    String::from_str(name)
}

/// The path of a directory entry and the parts of it.
#[derive(Debug)]
pub struct Spot<S = String> {
    pub path: S,
    pub dir: S,
    pub name: S,
}

impl View for Spot {
    type V = Spot<Seq<char>>;

    open spec fn view(&self) -> Spot<Seq<char>> {
        Spot { path: self.path@, dir: self.dir@, name: self.name@ }
    }
}

impl Spot<Seq<char>> {
    pub open spec fn of(path: Seq<char>) -> Spot<Seq<char>> {
        Spot { path, dir: parent(path), name: file_name(path) }
    }
}

impl Spot {
    pub fn new(path: &str) -> (s: Spot)
        requires
            is_absolute(path@),
        ensures
            s@ == Spot::of(path@),
    {
        let (dir, name) = split_dir_file(path);
        Spot { path: String::from_str(path), dir, name }
    }
}

} // verus!
