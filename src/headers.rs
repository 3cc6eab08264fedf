use vstd::prelude::*;

verus! {

/// One captured request header: its name and its value.
#[derive(Debug)]
pub struct HeaderPair {
    pub name: String,
    pub value: String,
}

impl View for HeaderPair {
    type V = (Seq<char>, Seq<char>);

    open spec fn view(&self) -> (Seq<char>, Seq<char>) {
        (self.name@, self.value@)
    }
}

/// The view of a list of headers, pair by pair.
pub open spec fn headers_view(hs: Seq<HeaderPair>) -> Seq<(Seq<char>, Seq<char>)> {
    hs.map_values(|h: HeaderPair| h@)
}

/// `c` is an upper-case ASCII letter.
pub open spec fn is_ascii_upper(c: char) -> bool {
    'A' <= c && c <= 'Z'
}

/// Two characters are equal up to ASCII case.
pub open spec fn chars_match(x: char, y: char) -> bool {
    ||| x == y
    ||| (is_ascii_upper(x) && y as u32 == x as u32 + 32)
    ||| (is_ascii_upper(y) && x as u32 == y as u32 + 32)
}

/// Two header names are equal up to ASCII case, as HTTP compares them.
pub open spec fn same_name(a: Seq<char>, b: Seq<char>) -> bool {
    &&& a.len() == b.len()
    &&& forall|i: int| 0 <= i < a.len() ==> chars_match(#[trigger] a[i], b[i])
}

/// `name` is one of the names in `allowed`, up to ASCII case.
pub open spec fn name_allowed(allowed: Seq<String>, name: Seq<char>) -> bool {
    exists|k: int| 0 <= k < allowed.len() && same_name(#[trigger] allowed[k]@, name)
}

/// The headers of `hs` whose name is allowed, in their order.
pub open spec fn kept(allowed: Seq<String>, hs: Seq<(Seq<char>, Seq<char>)>) -> Seq<(Seq<char>, Seq<char>)>
    decreases hs.len(),
{
    if hs.len() == 0 {
        seq![]
    } else {
        let rest = kept(allowed, hs.drop_last());
        if name_allowed(allowed, hs.last().0) {
            rest.push(hs.last())
        } else {
            rest
        }
    }
}

impl HeaderPair {
    /// A copy of this header.
    pub fn copy(&self) -> (r: HeaderPair)
        ensures
            r@ == self@,
    {
        HeaderPair { name: self.name.clone(), value: self.value.clone() }
    }
}

/// A copy of a list of headers, in the same order.
pub fn copy_headers(hs: &Vec<HeaderPair>) -> (r: Vec<HeaderPair>)
    ensures
        headers_view(r@) == headers_view(hs@),
{
    let mut r: Vec<HeaderPair> = Vec::new();
    let mut i: usize = 0;
    while i < hs.len()
        invariant
            i <= hs@.len(),
            r@.len() == i,
            forall|k: int| 0 <= k < i ==> (#[trigger] r@[k])@ == hs@[k]@,
        decreases hs@.len() - i,
    {
        r.push(hs[i].copy());
        i = i + 1;
    }
    assert(headers_view(r@) =~= headers_view(hs@));
    r
}

/// Whether two header names are equal up to ASCII case.
pub fn names_match(a: &str, b: &str) -> (r: bool)
    ensures
        r == same_name(a@, b@),
{
    let n = a.unicode_len();
    let m = b.unicode_len();
    if n != m {
        return false;
    }
    let mut i: usize = 0;
    while i < n
        invariant
            i <= n,
            n == a@.len(),
            m == b@.len(),
            n == m,
            forall|k: int| 0 <= k < i ==> chars_match(#[trigger] a@[k], b@[k]),
        decreases n - i,
    {
        let x = a.get_char(i);
        let y = b.get_char(i);
        let ok = x == y || ('A' <= x && x <= 'Z' && y as u32 == x as u32 + 32) || ('A' <= y && y
            <= 'Z' && x as u32 == y as u32 + 32);
        if !ok {
            assert(!chars_match(a@[i as int], b@[i as int]));
            return false;
        }
        i = i + 1;
    }
    true
}

/// Whether `name` is one of the names in `allowed`, up to ASCII case.
pub fn is_allowed_name(allowed: &Vec<String>, name: &str) -> (r: bool)
    ensures
        r == name_allowed(allowed@, name@),
{
    let mut k: usize = 0;
    while k < allowed.len()
        invariant
            k <= allowed@.len(),
            forall|j: int| 0 <= j < k ==> !same_name(#[trigger] allowed@[j]@, name@),
        decreases allowed@.len() - k,
    {
        if names_match(allowed[k].as_str(), name) {
            return true;
        }
        k = k + 1;
    }
    false
}

/// The headers of `hs` whose name is in `allowed` (up to ASCII case), in
/// their order, copied.
pub fn filter_headers(allowed: &Vec<String>, hs: &Vec<HeaderPair>) -> (r: Vec<HeaderPair>)
    ensures
        headers_view(r@) == kept(allowed@, headers_view(hs@)),
{
    let mut r: Vec<HeaderPair> = Vec::new();
    let mut i: usize = 0;
    while i < hs.len()
        invariant
            i <= hs@.len(),
            headers_view(r@) == kept(allowed@, headers_view(hs@.subrange(0, i as int))),
        decreases hs@.len() - i,
    {
        let ghost before = headers_view(hs@.subrange(0, i as int));
        let ghost after = headers_view(hs@.subrange(0, i + 1));
        assert(after.drop_last() =~= before);
        assert(after.last() == hs@[i as int]@);
        if is_allowed_name(allowed, hs[i].name.as_str()) {
            r.push(hs[i].copy());
            assert(headers_view(r@) =~= kept(allowed@, after));
        }
        i = i + 1;
    }
    assert(hs@.subrange(0, i as int) =~= hs@);
    r
}

/// The name of the header that carries the client's forwarded address.
pub open spec fn forwarded_header_name() -> Seq<char> {
    "X-Forwarded-For"@
}

/// Whether `name` names the forwarded-address header, up to ASCII case.
pub fn is_forwarded_header(name: &str) -> (r: bool)
    ensures
        r == same_name(name@, forwarded_header_name()),
{
    names_match(name, "X-Forwarded-For")
}

} // verus!
