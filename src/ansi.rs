//! Parameters of ANSI "select graphic rendition" escapes (`ESC [ ... m`).
use vstd::prelude::*;

verus! {

/// What one parameter asks for.
#[derive(Debug, Clone, Copy, PartialEq, Eq, Structural)]
pub enum AnsiEscape {
    Foreground(u8),
    Background(u8),
    Reset,
}

pub struct AnsiAdapter;

/// Whether `i` is the position of the first `m` in `s`.
pub open spec fn is_first_m(s: Seq<u8>, i: int) -> bool {
    &&& 0 <= i < s.len()
    &&& s[i] == 109u8
    &&& forall|j: int| 0 <= j < i ==> s[j] != 109u8
}

pub open spec fn has_m(s: Seq<u8>) -> bool {
    exists|i: int| 0 <= i < s.len() && s[i] == 109u8
}

/// The position of the first `m`: the number of bytes before the escape ends.
pub open spec fn first_m(s: Seq<u8>) -> int {
    choose|i: int| is_first_m(s, i)
}

/// `s` cut at each `;`.
pub open spec fn split_fields(s: Seq<u8>) -> Seq<Seq<u8>>
    decreases s.len(),
{
    if s.len() == 0 {
        seq![Seq::empty()]
    } else if s.last() == 59u8 {
        split_fields(s.drop_last()).push(Seq::empty())
    } else {
        let f = split_fields(s.drop_last());
        f.update(f.len() - 1, f.last().push(s.last()))
    }
}

pub open spec fn is_digit(b: u8) -> bool {
    48 <= b <= 57
}

/// The number that a string of decimal digits spells.
pub open spec fn digits_value(s: Seq<u8>) -> nat
    decreases s.len(),
{
    if s.len() == 0 {
        0
    } else {
        digits_value(s.drop_last()) * 10 + (s.last() - 48) as nat
    }
}

/// A field without its optional leading `+`.
pub open spec fn unsigned_part(s: Seq<u8>) -> Seq<u8> {
    if s.len() > 0 && s[0] == 43u8 {
        s.subrange(1, s.len() as int)
    } else {
        s
    }
}

/// Whether a field is a decimal number that fits in a byte, as `u8`'s
/// parser accepts it: an optional `+`, then at least one digit.
pub open spec fn field_ok(s: Seq<u8>) -> bool {
    let d = unsigned_part(s);
    &&& d.len() > 0
    &&& forall|i: int| 0 <= i < d.len() ==> is_digit(#[trigger] d[i])
    &&& digits_value(d) <= 255
}

/// Whether `s` holds an `m` and each parameter before it is a byte.
pub open spec fn well_formed(s: Seq<u8>) -> bool {
    &&& has_m(s)
    &&& forall|k: int|
        0 <= k < split_fields(s.take(first_m(s))).len() ==> field_ok(
            #[trigger] split_fields(s.take(first_m(s)))[k],
        )
}

/// The parameters of the escape, as numbers.
pub open spec fn parameters(s: Seq<u8>) -> Seq<u8> {
    split_fields(s.take(first_m(s))).map_values(|f: Seq<u8>| digits_value(unsigned_part(f)) as u8)
}

/// What parameter `n` asks for; `light` tells whether bold (1) came before,
/// which moves colours 0-7 to 8-15.
pub open spec fn escape_of(n: u8, light: bool) -> Option<AnsiEscape> {
    if n == 0 {
        Some(AnsiEscape::Reset)
    } else if 30 <= n <= 37 {
        Some(AnsiEscape::Foreground(if light { (n - 22) as u8 } else { (n - 30) as u8 }))
    } else if 40 <= n <= 47 {
        Some(AnsiEscape::Background(if light { (n - 32) as u8 } else { (n - 40) as u8 }))
    } else {
        None
    }
}

/// What each parameter of a list asks for.
pub open spec fn escapes(nums: Seq<u8>) -> Seq<Option<AnsiEscape>> {
    Seq::new(nums.len(), |k: int| escape_of(nums[k], nums.take(k).contains(1u8)))
}

proof fn lemma_first_m(s: Seq<u8>, i: int)
    requires
        is_first_m(s, i),
    ensures
        first_m(s) == i,
{
    let c = first_m(s);
    assert(is_first_m(s, c));
    if c < i {
        assert(s[c] != 109u8);
    } else if i < c {
        assert(s[i] != 109u8);
    }
}

proof fn lemma_exists_first_m(s: Seq<u8>, i: int)
    requires
        0 <= i < s.len(),
        s[i] == 109u8,
    ensures
        exists|j: int| is_first_m(s, j),
    decreases i,
{
    if exists|j: int| 0 <= j < i && s[j] == 109u8 {
        let j = choose|j: int| 0 <= j < i && s[j] == 109u8;
        lemma_exists_first_m(s, j);
    } else {
        assert(is_first_m(s, i));
    }
}

proof fn lemma_split_len(s: Seq<u8>)
    ensures
        split_fields(s).len() >= 1,
    decreases s.len(),
{
    if s.len() > 0 {
        lemma_split_len(s.drop_last());
    }
}

/// Cutting a longer prefix keeps the earlier fields, and the last field of
/// the shorter prefix is a prefix of the matching field of the longer one.
proof fn lemma_split_prefix(s: Seq<u8>, j: int, k: int)
    requires
        0 <= j <= k <= s.len(),
    ensures
        split_fields(s.take(j)).len() <= split_fields(s.take(k)).len(),
        forall|t: int|
            0 <= t < split_fields(s.take(j)).len() - 1 ==> #[trigger] split_fields(s.take(k))[t]
                == split_fields(s.take(j))[t],
        split_fields(s.take(j)).last().is_prefix_of(
            split_fields(s.take(k))[split_fields(s.take(j)).len() - 1],
        ),
    decreases k - j,
{
    lemma_split_len(s.take(j));
    lemma_split_len(s.take(k));
    if j < k {
        lemma_split_prefix(s, j, k - 1);
        lemma_split_len(s.take(k - 1));
        assert(s.take(k).drop_last() =~= s.take(k - 1));
        let a = split_fields(s.take(k - 1));
        let b = split_fields(s.take(k));
        let n = split_fields(s.take(j)).len();
        if s.take(k).last() != 59u8 {
            if n - 1 == a.len() - 1 {
                let p = split_fields(s.take(j)).last();
                assert(p.is_prefix_of(a[n - 1]));
                assert(b[n - 1] == a[n - 1].push(s.take(k).last()));
                assert(p.is_prefix_of(b[n - 1])) by {
                    assert forall|t: int| 0 <= t < p.len() implies p[t] == b[n - 1][t] by {
                        assert(a[n - 1][t] == b[n - 1][t]);
                    }
                }
            }
        }
    } else {
        assert(split_fields(s.take(j)).last() == split_fields(s.take(k))[split_fields(
            s.take(j),
        ).len() - 1]);
    }
}

proof fn lemma_digits_prefix(a: Seq<u8>, b: Seq<u8>)
    requires
        a.is_prefix_of(b),
    ensures
        digits_value(a) <= digits_value(b),
    decreases b.len(),
{
    if a.len() < b.len() {
        assert(a.is_prefix_of(b.drop_last()));
        lemma_digits_prefix(a, b.drop_last());
    } else {
        assert(a =~= b);
    }
}

impl AnsiAdapter {
    /// Reads the parameters of an escape, the bytes after `ESC [`: what each
    /// asks for, and how many bytes precede the closing `m`.
    pub fn parse(chars: &[u8]) -> (r: (Vec<Option<AnsiEscape>>, usize))
        requires
            well_formed(chars@),
        ensures
            r.0@ == escapes(parameters(chars@)),
            r.1 == first_m(chars@),
    {
        let ghost s = chars@;
        let ghost mi = first_m(s);
        proof {
            let w = choose|w: int| 0 <= w < s.len() && s[w] == 109u8;
            lemma_exists_first_m(s, w);
            assert(is_first_m(s, mi));
            assert(s.take(0) =~= Seq::<u8>::empty());
            assert(s.subrange(0, 0) =~= Seq::<u8>::empty());
            assert(split_fields(Seq::<u8>::empty()) == seq![Seq::<u8>::empty()]);
        }
        let mut i: usize = 0;
        let mut value: u32 = 0;
        let mut light = false;
        let mut vec: Vec<Option<AnsiEscape>> = Vec::new();
        let ghost mut done: Seq<Seq<u8>> = Seq::empty();
        let ghost mut start: int = 0;
        proof {
            assert(done.push(s.subrange(0, 0)) =~= seq![Seq::<u8>::empty()]);
            assert(vec@ =~= escapes(done.map_values(|f: Seq<u8>| digits_value(unsigned_part(f)) as u8)));
        }
        loop
            invariant
                s == chars@,
                well_formed(s),
                is_first_m(s, mi),
                mi == first_m(s),
                0 <= start <= i <= mi,
                split_fields(s.take(i as int)) == done.push(s.subrange(start, i as int)),
                value as nat == digits_value(unsigned_part(s.subrange(start, i as int))),
                value <= 255,
                vec@ == escapes(done.map_values(|f: Seq<u8>| digits_value(unsigned_part(f)) as u8)),
                light == done.map_values(|f: Seq<u8>| digits_value(unsigned_part(f)) as u8).contains(1u8),
            decreases mi - i,
        {
            let b = chars[i];
            let ghost cur = s.subrange(start, i as int);
            proof {
                lemma_split_prefix(s, i as int, mi);
                lemma_split_len(s.take(i as int));
            }
            if b == 109u8 || b == 59u8 {
                let ghost nums = done.map_values(|f: Seq<u8>| digits_value(unsigned_part(f)) as u8);
                let n = value as u8;
                let e = if n == 0 {
                    Some(AnsiEscape::Reset)
                } else if 30 <= n && n <= 37 {
                    Some(AnsiEscape::Foreground(if !light { n - 30 } else { n - 22 }))
                } else if 40 <= n && n <= 47 {
                    Some(AnsiEscape::Background(if !light { n - 40 } else { n - 32 }))
                } else {
                    None
                };
                if n == 1 {
                    light = true;
                }
                vec.push(e);
                proof {
                    let nd = done.push(cur);
                    let nn = nd.map_values(|f: Seq<u8>| digits_value(unsigned_part(f)) as u8);
                    assert(nn =~= nums.push(n));
                    assert(nn.take(nums.len() as int) =~= nums);
                    assert forall|k: int| 0 <= k < nums.len() implies nn.take(k) =~= nums.take(k) by {}
                    assert(vec@ =~= escapes(nn));
                    if n == 1 {
                        assert(nn[nums.len() as int] == 1u8);
                    } else if nums.contains(1u8) {
                        let w = choose|w: int| 0 <= w < nums.len() && nums[w] == 1u8;
                        assert(nn[w] == 1u8);
                    } else {
                        assert forall|w: int| 0 <= w < nn.len() implies nn[w] != 1u8 by {
                            if w < nums.len() {
                                assert(!(nums[w] == 1u8));
                            }
                        }
                    }
                    done = nd;
                }
                if b == 109u8 {
                    proof {
                        lemma_first_m(s, i as int);
                        assert(s.take(i as int) == s.take(mi));
                        assert(parameters(s) =~= done.map_values(
                            |f: Seq<u8>| digits_value(unsigned_part(f)) as u8,
                        ));
                    }
                    return (vec, i);
                }
                proof {
                    assert(s.take(i + 1).drop_last() =~= s.take(i as int));
                    assert(s.subrange(i + 1, i + 1) =~= Seq::<u8>::empty());
                    start = i + 1;
                }
                value = 0;
            } else {
                proof {
                    assert(s.take(i + 1).drop_last() =~= s.take(i as int));
                    let nc = s.subrange(start, i + 1);
                    assert(nc =~= cur.push(b));
                    assert(s.take(i + 1).last() == b);
                    assert(split_fields(s.take(i + 1)) =~= done.push(nc));
                    lemma_split_prefix(s, i + 1, mi);
                    let f = split_fields(s.take(mi))[done.len() as int];
                    assert(field_ok(f));
                    assert(nc.is_prefix_of(f));
                    let u = unsigned_part(f);
                    let c = cur.len() as int;
                    assert(nc[c] == b);
                    assert(f.subrange(0, nc.len() as int)[c] == f[c]);
                    assert(f[c] == b);
                    if f.len() > 0 && f[0] == 43u8 {
                        if c > 0 {
                            assert(u[c - 1] == b);
                            assert(is_digit(b));
                            assert(cur[0] == 43u8);
                            assert(unsigned_part(nc) =~= unsigned_part(cur).push(b));
                        } else {
                            assert(b == 43u8);
                            assert(unsigned_part(nc) =~= Seq::<u8>::empty());
                        }
                    } else {
                        assert(u[c] == b);
                        assert(is_digit(b));
                        if c > 0 {
                            assert(cur[0] == f[0]);
                        }
                        assert(unsigned_part(nc) =~= unsigned_part(cur).push(b));
                    }
                    if b != 43u8 {
                        assert(unsigned_part(nc).drop_last() =~= unsigned_part(cur));
                        assert(unsigned_part(nc).is_prefix_of(u));
                        lemma_digits_prefix(unsigned_part(nc), u);
                    }
                }
                if b != 43u8 {
                    value = value * 10 + (b - 48) as u32;
                }
            }
            i = i + 1;
        }
    }
}

} // verus!
