use vstd::prelude::*;
use vstd::string::StrSliceExecFns;

verus! {

pub open spec fn is_ascii_upper(c: char) -> bool {
    'A' <= c && c <= 'Z'
}

/// Two characters are the same letter up to ASCII case.
pub open spec fn same_letter(a: char, b: char) -> bool {
    ||| a == b
    ||| is_ascii_upper(a) && a as u32 + 32 == b as u32
    ||| is_ascii_upper(b) && b as u32 + 32 == a as u32
}

/// Two names are equal up to ASCII case.
pub open spec fn names_match(a: Seq<char>, b: Seq<char>) -> bool {
    &&& a.len() == b.len()
    &&& forall|i: int| 0 <= i < a.len() ==> same_letter(#[trigger] a[i], b[i])
}

fn letters_match(a: char, b: char) -> (r: bool)
    ensures
        r == same_letter(a, b),
{
    let x = a as u32;
    let y = b as u32;
    x == y || ('A' <= a && a <= 'Z' && x + 32 == y) || ('A' <= b && b <= 'Z' && y + 32 == x)
}

/// Whether `a` and `b` are equal up to ASCII case.
pub fn same_name(a: &str, b: &str) -> (r: bool)
    ensures
        r == names_match(a@, b@),
{
    let n = a.unicode_len();
    if n != b.unicode_len() {
        return false;
    }
    let mut i: usize = 0;
    while i < n
        invariant
            n == a@.len(),
            n == b@.len(),
            i <= n,
            forall|j: int| 0 <= j < i ==> same_letter(#[trigger] a@[j], b@[j]),
        decreases n - i,
    {
        if !letters_match(a.get_char(i), b.get_char(i)) {
            return false;
        }
        i += 1;
    }
    true
}

/// `a` comes strictly before `b` in the lexicographic order of their
/// characters' code points (a proper prefix comes first).
pub open spec fn name_before(a: Seq<char>, b: Seq<char>) -> bool
    decreases a.len(),
{
    if a.len() == 0 {
        b.len() > 0
    } else if b.len() == 0 {
        false
    } else if a[0] != b[0] {
        (a[0] as u32) < (b[0] as u32)
    } else {
        name_before(a.drop_first(), b.drop_first())
    }
}

/// No name comes before itself.
pub proof fn lemma_name_before_irreflexive(a: Seq<char>)
    ensures
        !name_before(a, a),
    decreases a.len(),
{
    if a.len() > 0 {
        lemma_name_before_irreflexive(a.drop_first());
    }
}

/// The order of names is transitive.
pub proof fn lemma_name_before_transitive(a: Seq<char>, b: Seq<char>, c: Seq<char>)
    requires
        name_before(a, b),
        name_before(b, c),
    ensures
        name_before(a, c),
    decreases a.len(),
{
    if a.len() > 0 && b.len() > 0 && c.len() > 0 && a[0] == b[0] && b[0] == c[0] {
        lemma_name_before_transitive(a.drop_first(), b.drop_first(), c.drop_first());
    }
}

/// Whether `a` comes strictly before `b` in the order of names.
pub fn name_precedes(a: &str, b: &str) -> (r: bool)
    ensures
        r == name_before(a@, b@),
{
    let n = a.unicode_len();
    let m = b.unicode_len();
    let mut i: usize = 0;
    assert(a@.skip(0) =~= a@ && b@.skip(0) =~= b@);
    loop
        invariant
            n == a@.len(),
            m == b@.len(),
            i <= n,
            i <= m,
            name_before(a@, b@) == name_before(a@.skip(i as int), b@.skip(i as int)),
        decreases n - i,
    {
        if i == n {
            return m > i;
        }
        if i == m {
            return false;
        }
        let x = a.get_char(i);
        let y = b.get_char(i);
        assert(a@.skip(i as int)[0] == x && b@.skip(i as int)[0] == y);
        if x != y {
            return (x as u32) < (y as u32);
        }
        assert(a@.skip(i as int).drop_first() =~= a@.skip(i as int + 1));
        assert(b@.skip(i as int).drop_first() =~= b@.skip(i as int + 1));
        i += 1;
    }
}

/// Longest allowed character name.
pub const MAX_NAME_LEN: usize = 20;

pub open spec fn is_name_char(c: char) -> bool {
    ||| 'a' <= c && c <= 'z'
    ||| 'A' <= c && c <= 'Z'
    ||| '0' <= c && c <= '9'
    ||| c == ' '
}

/// A character name has 1 to 20 characters, each an ASCII letter, an ASCII
/// digit or a space.
pub open spec fn is_valid_name(name: Seq<char>) -> bool {
    &&& 1 <= name.len() <= MAX_NAME_LEN
    &&& forall|i: int| 0 <= i < name.len() ==> is_name_char(#[trigger] name[i])
}

/// Whether `name` is an acceptable character name.
pub fn valid_name(name: &str) -> (r: bool)
    ensures
        r == is_valid_name(name@),
{
    let n = name.unicode_len();
    if n < 1 || n > MAX_NAME_LEN {
        return false;
    }
    let mut i: usize = 0;
    while i < n
        invariant
            n == name@.len(),
            i <= n,
            forall|j: int| 0 <= j < i ==> is_name_char(#[trigger] name@[j]),
        decreases n - i,
    {
        let c = name.get_char(i);
        if !(('a' <= c && c <= 'z') || ('A' <= c && c <= 'Z') || ('0' <= c && c <= '9') || c == ' ') {
            return false;
        }
        i += 1;
    }
    true
}

} // verus!
