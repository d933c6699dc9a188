//! A small model of an HTTP header list.
//!
//! A header is a name together with a raw byte value; a message carries an
//! ordered list of them, and one name may occur many times.  Names compare
//! ASCII-case-insensitively, values are kept as the bytes that arrived.

use vstd::prelude::*;

verus! {

/// Lower-cases one ASCII byte; other bytes are unchanged.
pub open spec fn ascii_lower(b: u8) -> u8 {
    if 65 <= b <= 90 {
        (b + 32) as u8
    } else {
        b
    }
}

/// Header names are equal when they agree byte for byte up to ASCII case.
pub open spec fn name_eq(a: Seq<u8>, b: Seq<u8>) -> bool {
    &&& a.len() == b.len()
    &&& forall|i: int| 0 <= i < a.len() ==> ascii_lower(a[i]) == ascii_lower(b[i])
}

/// `t` occurs as a contiguous run of bytes inside `s`.
pub open spec fn contains_token(s: Seq<u8>, t: Seq<u8>) -> bool {
    exists|i: int|
        0 <= i && i + t.len() <= s.len() && #[trigger] s.subrange(i, i + t.len() as int) == t
}

/// The bytes a header value may hold and still read as text: visible
/// ASCII, space or horizontal tab.
pub open spec fn is_header_text(v: Seq<u8>) -> bool {
    forall|i: int| 0 <= i < v.len() ==> (32 <= v[i] < 127 || v[i] == 9)
}

/// One header field: a name and a value, both raw bytes.
pub struct HeaderField {
    pub name: Vec<u8>,
    pub value: Vec<u8>,
}

impl View for HeaderField {
    type V = (Seq<u8>, Seq<u8>);

    open spec fn view(&self) -> (Seq<u8>, Seq<u8>) {
        (self.name@, self.value@)
    }
}

/// An ordered list of header fields.
pub struct Headers {
    pub fields: Vec<HeaderField>,
}

impl View for Headers {
    type V = Seq<(Seq<u8>, Seq<u8>)>;

    open spec fn view(&self) -> Seq<(Seq<u8>, Seq<u8>)> {
        self.fields@.map_values(|f: HeaderField| f@)
    }
}

/// The fields of `h` whose name is not `name`, in their original order.
pub open spec fn remove_name(h: Seq<(Seq<u8>, Seq<u8>)>, name: Seq<u8>) -> Seq<(Seq<u8>, Seq<u8>)>
    decreases h.len(),
{
    if h.len() == 0 {
        Seq::empty()
    } else if name_eq(h[0].0, name) {
        remove_name(h.drop_first(), name)
    } else {
        seq![h[0]] + remove_name(h.drop_first(), name)
    }
}

/// What inserting a header means: every field of that name goes, and the
/// new field is appended at the end.
pub open spec fn insert_spec(
    h: Seq<(Seq<u8>, Seq<u8>)>,
    name: Seq<u8>,
    value: Seq<u8>,
) -> Seq<(Seq<u8>, Seq<u8>)> {
    remove_name(h, name).push((name, value))
}

/// The values of the fields of `h` named `name`, in their original order.
pub open spec fn values_of(h: Seq<(Seq<u8>, Seq<u8>)>, name: Seq<u8>) -> Seq<Seq<u8>>
    decreases h.len(),
{
    if h.len() == 0 {
        Seq::empty()
    } else if name_eq(h[0].0, name) {
        seq![h[0].1] + values_of(h.drop_first(), name)
    } else {
        values_of(h.drop_first(), name)
    }
}

/// One unfolding step of `remove_name` on a suffix.
pub proof fn lemma_remove_name_skip(h: Seq<(Seq<u8>, Seq<u8>)>, name: Seq<u8>, i: int)
    requires
        0 <= i < h.len(),
    ensures
        remove_name(h.skip(i), name) == if name_eq(h[i].0, name) {
            remove_name(h.skip(i + 1), name)
        } else {
            seq![h[i]] + remove_name(h.skip(i + 1), name)
        },
{
    assert(h.skip(i).drop_first() =~= h.skip(i + 1));
    assert(h.skip(i)[0] == h[i]);
}

/// One unfolding step of `values_of` on a suffix.
pub proof fn lemma_values_of_skip(h: Seq<(Seq<u8>, Seq<u8>)>, name: Seq<u8>, i: int)
    requires
        0 <= i < h.len(),
    ensures
        values_of(h.skip(i), name) == if name_eq(h[i].0, name) {
            seq![h[i].1] + values_of(h.skip(i + 1), name)
        } else {
            values_of(h.skip(i + 1), name)
        },
{
    assert(h.skip(i).drop_first() =~= h.skip(i + 1));
    assert(h.skip(i)[0] == h[i]);
}

/// Lower-cases one ASCII byte.
fn lower(b: u8) -> (r: u8)
    ensures
        r == ascii_lower(b),
{
    if 65 <= b && b <= 90 {
        b + 32
    } else {
        b
    }
}

/// Compares two header names, ignoring ASCII case.
pub fn name_matches(a: &[u8], b: &[u8]) -> (r: bool)
    ensures
        r == name_eq(a@, b@),
{
    if a.len() != b.len() {
        return false;
    }
    let n = a.len();
    let mut i: usize = 0;
    while i < n
        invariant
            n == a@.len(),
            n == b@.len(),
            i <= n,
            forall|k: int| 0 <= k < i ==> ascii_lower(a@[k]) == ascii_lower(b@[k]),
        decreases n - i,
    {
        if lower(a[i]) != lower(b[i]) {
            return false;
        }
        i += 1;
    }
    true
}

/// Whether `needle` occurs as a contiguous run of bytes inside `hay`.
pub fn contains_bytes(hay: &[u8], needle: &[u8]) -> (r: bool)
    ensures
        r == contains_token(hay@, needle@),
{
    let n = hay.len();
    let m = needle.len();
    if m > n {
        return false;
    }
    let mut i: usize = 0;
    while i <= n - m
        invariant
            m <= n,
            n == hay@.len(),
            m == needle@.len(),
            i <= n - m + 1,
            forall|k: int| 0 <= k < i ==> #[trigger] hay@.subrange(k, k + m as int) != needle@,
        decreases n - m + 1 - i,
    {
        let mut j: usize = 0;
        while j < m && hay[i + j] == needle[j]
            invariant
                m <= n,
                n == hay@.len(),
                m == needle@.len(),
                i + m <= n,
                j <= m,
                forall|k: int| 0 <= k < j ==> hay@[i + k] == needle@[k],
            decreases m - j,
        {
            j += 1;
        }
        if j == m {
            proof {
                assert(hay@.subrange(i as int, i + m as int) =~= needle@);
            }
            return true;
        }
        proof {
            assert(hay@[i + j] != needle@[j as int]);
            if hay@.subrange(i as int, i + m as int) == needle@ {
                assert(hay@.subrange(i as int, i + m as int)[j as int] == hay@[i + j]);
            }
        }
        i += 1;
    }
    proof {
        assert forall|k: int| 0 <= k && k + m <= n implies #[trigger] hay@.subrange(
            k,
            k + m as int,
        ) != needle@ by {
            assert(k < i);
        }
    }
    false
}

/// Whether every byte of `v` reads as header text.
pub fn header_text(v: &[u8]) -> (r: bool)
    ensures
        r == is_header_text(v@),
{
    let n = v.len();
    let mut i: usize = 0;
    while i < n
        invariant
            n == v@.len(),
            i <= n,
            forall|k: int| 0 <= k < i ==> (32 <= v@[k] < 127 || v@[k] == 9),
        decreases n - i,
    {
        let b = v[i];
        if !(32 <= b && b < 127 || b == 9) {
            return false;
        }
        i += 1;
    }
    true
}

/// Copies a byte vector.
fn copy_bytes(v: &Vec<u8>) -> (r: Vec<u8>)
    ensures
        r@ == v@,
{
    let n = v.len();
    let mut out: Vec<u8> = Vec::with_capacity(n);
    let mut i: usize = 0;
    while i < n
        invariant
            n == v@.len(),
            i <= n,
            out@ == v@.subrange(0, i as int),
        decreases n - i,
    {
        out.push(v[i]);
        proof {
            assert(out@ =~= v@.subrange(0, i + 1));
        }
        i += 1;
    }
    proof {
        assert(v@.subrange(0, n as int) =~= v@);
    }
    out
}

impl Headers {
    /// An empty header list.
    pub fn new() -> (h: Headers)
        ensures
            h@ == Seq::<(Seq<u8>, Seq<u8>)>::empty(),
    {
        let h = Headers { fields: Vec::new() };
        proof {
            assert(h@ =~= Seq::<(Seq<u8>, Seq<u8>)>::empty());
        }
        h
    }

    /// Appends a field at the end, keeping any existing fields of the
    /// same name.
    pub fn append(&mut self, name: Vec<u8>, value: Vec<u8>)
        ensures
            final(self)@ == old(self)@.push((name@, value@)),
    {
        let ghost n = name@;
        let ghost v = value@;
        self.fields.push(HeaderField { name, value });
        proof {
            assert(self@ =~= old(self)@.push((n, v)));
        }
    }

    /// Replaces every field named `name` with the single field
    /// `(name, value)`, appended at the end.
    pub fn insert(&mut self, name: Vec<u8>, value: Vec<u8>)
        ensures
            final(self)@ == insert_spec(old(self)@, name@, value@),
    {
        let ghost h0 = self@;
        let n = self.fields.len();
        let mut kept: Vec<HeaderField> = Vec::new();
        let mut i: usize = 0;
        proof {
            assert(h0.skip(0) =~= h0);
            assert(kept@.map_values(|f: HeaderField| f@) =~= Seq::<(Seq<u8>, Seq<u8>)>::empty());
        }
        while i < n
            invariant
                n == self.fields@.len(),
                h0 == self@,
                i <= n,
                remove_name(h0, name@) == kept@.map_values(|f: HeaderField| f@) + remove_name(
                    h0.skip(i as int),
                    name@,
                ),
            decreases n - i,
        {
            proof {
                lemma_remove_name_skip(h0, name@, i as int);
                assert(h0[i as int] == self.fields@[i as int]@);
            }
            let f = &self.fields[i];
            if !name_matches(f.name.as_slice(), name.as_slice()) {
                let copy = HeaderField { name: copy_bytes(&f.name), value: copy_bytes(&f.value) };
                let ghost kept0 = kept@;
                kept.push(copy);
                proof {
                    assert(kept@.map_values(|g: HeaderField| g@) =~= kept0.map_values(
                        |g: HeaderField| g@,
                    ).push(h0[i as int]));
                    assert(kept0.map_values(|g: HeaderField| g@).push(h0[i as int])
                        + remove_name(h0.skip(i + 1), name@) =~= kept0.map_values(
                        |g: HeaderField| g@,
                    ) + (seq![h0[i as int]] + remove_name(h0.skip(i + 1), name@)));
                }
            }
            i += 1;
        }
        proof {
            assert(h0.skip(n as int) =~= Seq::<(Seq<u8>, Seq<u8>)>::empty());
            assert(kept@.map_values(|f: HeaderField| f@) + Seq::<(Seq<u8>, Seq<u8>)>::empty()
                =~= kept@.map_values(|f: HeaderField| f@));
        }
        let ghost kn = name@;
        let ghost kv = value@;
        kept.push(HeaderField { name, value });
        self.fields = kept;
        proof {
            assert(self@ =~= insert_spec(h0, kn, kv));
        }
    }

    /// The values of every field named `name`, in order.
    pub fn get_all(&self, name: &[u8]) -> (r: Vec<Vec<u8>>)
        ensures
            r.deep_view() == values_of(self@, name@),
    {
        let ghost h = self@;
        let n = self.fields.len();
        let mut out: Vec<Vec<u8>> = Vec::new();
        let mut i: usize = 0;
        proof {
            assert(h.skip(0) =~= h);
            assert(out.deep_view() =~~= Seq::<Seq<u8>>::empty());
        }
        while i < n
            invariant
                n == self.fields@.len(),
                h == self@,
                i <= n,
                values_of(h, name@) == out.deep_view() + values_of(h.skip(i as int), name@),
            decreases n - i,
        {
            proof {
                lemma_values_of_skip(h, name@, i as int);
                assert(h[i as int] == self.fields@[i as int]@);
            }
            let f = &self.fields[i];
            if name_matches(f.name.as_slice(), name) {
                let ghost out0 = out.deep_view();
                out.push(copy_bytes(&f.value));
                proof {
                    assert(out.deep_view() =~~= out0.push(h[i as int].1));
                    assert(out0.push(h[i as int].1) + values_of(h.skip(i + 1), name@) =~~= out0 + (
                    seq![h[i as int].1] + values_of(h.skip(i + 1), name@)));
                }
            }
            i += 1;
        }
        proof {
            assert(h.skip(n as int) =~= Seq::<(Seq<u8>, Seq<u8>)>::empty());
            assert(out.deep_view() + Seq::<Seq<u8>>::empty() =~~= out.deep_view());
        }
        out
    }
}

} // verus!
