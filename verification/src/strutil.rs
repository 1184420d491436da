use vstd::prelude::*;
use vstd::string::StrSliceExecFns;
use vstd::string::StringExecFns;

verus! {

/// Character-for-character copy of a string slice.
pub fn str_to_chars(s: &str) -> (v: Vec<char>)
    ensures
        v@ == s@,
{
    let n = s.unicode_len();
    let mut v: Vec<char> = Vec::new();
    let mut i: usize = 0;
    while i < n
        invariant
            i <= n,
            v@ == s@.subrange(0, i as int),
        decreases n - i,
    {
        v.push(s.get_char(i));
        proof {
            assert(v@ =~= s@.subrange(0, i + 1));
        }
        i = i + 1;
    }
    proof {
        assert(s@.subrange(0, n as int) =~= s@);
    }
    v
}

/// Relies on `String` collecting an iterator of characters: the result holds
/// exactly the characters of `v`, in order.
#[verifier::external_body]
pub fn chars_to_string(v: &Vec<char>) -> (r: String)
    ensures
        r@ == v@,
{
    v.iter().collect()
}

/// Equality of two string slices, decided character by character.
pub fn str_eq(a: &str, b: &str) -> (r: bool)
    ensures
        r == (a@ == b@),
{
    let na = a.unicode_len();
    let nb = b.unicode_len();
    if na != nb {
        return false;
    }
    let mut i: usize = 0;
    while i < na
        invariant
            i <= na,
            na == a@.len(),
            na == b@.len(),
            forall|j: int| 0 <= j < i ==> a@[j] == b@[j],
        decreases na - i,
    {
        if a.get_char(i) != b.get_char(i) {
            return false;
        }
        i = i + 1;
    }
    proof {
        assert(a@ =~= b@);
    }
    true
}

/// The concatenation of two string slices.
pub fn concat_str(a: &str, b: &str) -> (r: String)
    ensures
        r@ == a@ + b@,
{
    let mut out = String::from_str(a);
    out.append(b);
    out
}

/// Shared ownership of the same value: a cloned `Rc` holds exactly the
/// value of the original.  Relies on `Rc::clone` sharing the allocation.
#[verifier::external_body]
pub fn rc_clone<T>(rc: &std::rc::Rc<T>) -> (r: std::rc::Rc<T>)
    ensures
        r == *rc,
{
    std::rc::Rc::clone(rc)
}

/// The Unicode lowercase form of a string, a function of its characters
/// alone.
pub uninterp spec fn lower_of(s: Seq<char>) -> Seq<char>;

/// Relies on `str::to_lowercase`: the result depends on the characters of
/// the input alone.
#[verifier::external_body]
pub fn lowercase(s: &str) -> (r: String)
    ensures
        r@ == lower_of(s@),
{
    s.to_lowercase()
}

/// Whether `n` occurs inside `h` as a contiguous run.
pub open spec fn spec_contains(h: Seq<char>, n: Seq<char>) -> bool {
    exists|i: int| 0 <= i && i + n.len() <= h.len() && #[trigger] h.subrange(i, i + n.len()) == n
}

/// Decides `spec_contains` by scanning every start position.
pub fn str_contains(hay: &str, needle: &str) -> (r: bool)
    ensures
        r == spec_contains(hay@, needle@),
{
    let h = str_to_chars(hay);
    let n = str_to_chars(needle);
    if n.len() > h.len() {
        return false;
    }
    let mut i: usize = 0;
    while i <= h.len() - n.len()
        invariant
            h@ == hay@,
            n@ == needle@,
            n@.len() <= h@.len(),
            i + n@.len() <= h@.len() + 1,
            forall|x: int| 0 <= x < i ==> #[trigger] h@.subrange(x, x + n@.len()) != needle@,
        decreases h@.len() - i,
    {
        let mut j: usize = 0;
        let mut hit = true;
        while j < n.len()
            invariant
                i + n@.len() <= h@.len(),
                j <= n@.len(),
                hit == (forall|y: int| 0 <= y < j ==> h@[i + y] == n@[y]),
            decreases n@.len() - j,
        {
            if h[i + j] != n[j] {
                hit = false;
                proof {
                    assert(h@[i + j] != n@[j as int]);
                }
                j = n.len();
            } else {
                j = j + 1;
            }
        }
        if hit {
            proof {
                assert(h@.subrange(i as int, i + n@.len()) =~= needle@);
            }
            return true;
        }
        proof {
            assert(h@.subrange(i as int, i + n@.len()) != needle@) by {
                if h@.subrange(i as int, i + n@.len()) == needle@ {
                    assert(forall|y: int|
                        0 <= y < n@.len() ==> h@[i + y] == #[trigger] needle@[y]) by {
                        assert(forall|y: int|
                            0 <= y < n@.len() ==> #[trigger] needle@[y] == h@.subrange(
                                i as int,
                                i + n@.len(),
                            )[y]);
                    }
                }
            }
        }
        i = i + 1;
    }
    false
}

/// A string slice extended with one final character.
pub fn concat_char(a: &str, c: char) -> (r: String)
    ensures
        r@ == a@ + seq![c],
{
    let mut tail: Vec<char> = Vec::new();
    tail.push(c);
    let tail_s = chars_to_string(&tail);
    let mut out = String::from_str(a);
    out.append(tail_s.as_str());
    out
}


/// The decimal rendering of a signed integer.
pub uninterp spec fn int_text(i: i64) -> Seq<char>;

/// Relies on `i64`'s `to_string`: the decimal rendering, a function of
/// the integer alone.
#[verifier::external_body]
pub fn i64_to_text(i: i64) -> (r: String)
    ensures
        r@ == int_text(i),
{
    i.to_string()
}

} // verus!
