//! Structured IP addresses and the verified reading of their text forms,
//! as an `address` record declares them.

use vstd::prelude::*;

use crate::text::{
    all_dec_digits, chars_of, dec_val, dec_val_up_to, hex_val, is_h16_text, parse_h16,
};

verus! {

/// A version-4 address: four octets, in text order.
#[derive(Clone, Copy, Debug, PartialEq, Eq, Structural)]
pub struct Ipv4Addr {
    pub a: u8,
    pub b: u8,
    pub c: u8,
    pub d: u8,
}

/// A version-6 address: eight 16-bit segments, in text order.
#[derive(Clone, Copy, Debug, PartialEq, Eq, Structural)]
pub struct Ipv6Addr {
    pub s0: u16,
    pub s1: u16,
    pub s2: u16,
    pub s3: u16,
    pub s4: u16,
    pub s5: u16,
    pub s6: u16,
    pub s7: u16,
}

impl Ipv6Addr {
    /// The eight segments as a sequence.
    pub open spec fn segs(self) -> Seq<u16> {
        seq![self.s0, self.s1, self.s2, self.s3, self.s4, self.s5, self.s6, self.s7]
    }
}

/// An IP address of either version.
#[derive(Clone, Copy, Debug, PartialEq, Eq, Structural)]
pub enum IpAddr {
    V4(Ipv4Addr),
    V6(Ipv6Addr),
}

/// `s` split at every occurrence of `sep`; always at least one part.
pub open spec fn split_on(s: Seq<char>, sep: char) -> Seq<Seq<char>>
    decreases s.len(),
{
    if s.len() == 0 {
        seq![Seq::<char>::empty()]
    } else if s.last() == sep {
        split_on(s.drop_last(), sep).push(Seq::<char>::empty())
    } else {
        let parts = split_on(s.drop_last(), sep);
        parts.update(parts.len() - 1, parts.last().push(s.last()))
    }
}

/// The views of a vector of character vectors.
pub open spec fn parts_view(r: Seq<Vec<char>>) -> Seq<Seq<char>> {
    Seq::new(r.len(), |i: int| r[i]@)
}

/// Splits `v` at every occurrence of `sep`, exactly as `split_on` says.
pub fn split_chars(v: &Vec<char>, sep: char) -> (r: Vec<Vec<char>>)
    ensures
        parts_view(r@) == split_on(v@, sep),
{
    let n = v.len();
    let mut parts: Vec<Vec<char>> = Vec::new();
    let mut cur: Vec<char> = Vec::new();
    let mut i: usize = 0;
    proof {
        assert(v@.take(0) =~= Seq::<char>::empty());
        assert(parts_view(parts@).push(cur@) =~= split_on(v@.take(0), sep));
    }
    while i < n
        invariant
            i <= n,
            n == v@.len(),
            parts_view(parts@).push(cur@) == split_on(v@.take(i as int), sep),
        decreases n - i,
    {
        let c = v[i];
        proof {
            assert(v@.take(i as int + 1).drop_last() =~= v@.take(i as int));
            assert(v@.take(i as int + 1).last() == v@[i as int]);
        }
        if c == sep {
            let ghost old_parts = parts_view(parts@).push(cur@);
            parts.push(cur);
            cur = Vec::new();
            proof {
                assert(parts_view(parts@).push(cur@) =~= old_parts.push(Seq::<char>::empty()));
            }
        } else {
            let ghost old_parts = parts_view(parts@).push(cur@);
            cur.push(c);
            proof {
                assert(parts_view(parts@).push(cur@) =~= old_parts.update(
                    old_parts.len() - 1,
                    old_parts.last().push(c),
                ));
            }
        }
        i = i + 1;
    }
    proof {
        assert(v@.take(n as int) =~= v@);
    }
    let ghost done = parts_view(parts@).push(cur@);
    parts.push(cur);
    proof {
        assert(parts_view(parts@) =~= done);
    }
    parts
}

/// Is `p` the text of one octet: one to three digits, no leading zero,
/// value at most 255?
pub open spec fn is_octet_text(p: Seq<char>) -> bool {
    &&& 1 <= p.len() <= 3
    &&& all_dec_digits(p)
    &&& (p.len() > 1 ==> p[0] != '0')
    &&& dec_val(p) <= 255
}

/// Reads one octet, exactly as `is_octet_text` and `dec_val` say.
pub fn parse_octet(v: &Vec<char>) -> (r: Option<u8>)
    ensures
        match r {
            Some(x) => is_octet_text(v@) && x == dec_val(v@),
            None => !is_octet_text(v@),
        },
{
    if v.len() == 0 || v.len() > 3 {
        return None;
    }
    if v.len() > 1 && v[0] == '0' {
        return None;
    }
    match dec_val_up_to(v, 255) {
        None => None,
        Some(x) => Some(x as u8),
    }
}

/// The value of `s` read as a version-4 address: four octets separated by
/// dots.
pub open spec fn spec_parse_ipv4(s: Seq<char>) -> Option<Ipv4Addr> {
    let ps = split_on(s, '.');
    if ps.len() == 4 && is_octet_text(ps[0]) && is_octet_text(ps[1]) && is_octet_text(ps[2])
        && is_octet_text(ps[3]) {
        Some(
            Ipv4Addr {
                a: dec_val(ps[0]) as u8,
                b: dec_val(ps[1]) as u8,
                c: dec_val(ps[2]) as u8,
                d: dec_val(ps[3]) as u8,
            },
        )
    } else {
        None
    }
}

/// Reads a version-4 address, exactly as `spec_parse_ipv4` says.
pub fn parse_ipv4_chars(v: &Vec<char>) -> (r: Option<Ipv4Addr>)
    ensures
        r == spec_parse_ipv4(v@),
{
    let parts = split_chars(v, '.');
    if parts.len() != 4 {
        return None;
    }
    let a = match parse_octet(&parts[0]) {
        Some(x) => x,
        None => {
            return None;
        },
    };
    let b = match parse_octet(&parts[1]) {
        Some(x) => x,
        None => {
            return None;
        },
    };
    let c = match parse_octet(&parts[2]) {
        Some(x) => x,
        None => {
            return None;
        },
    };
    let d = match parse_octet(&parts[3]) {
        Some(x) => x,
        None => {
            return None;
        },
    };
    Some(Ipv4Addr { a, b, c, d })
}

/// Reads a version-4 address from a string.
pub fn parse_ipv4(s: &str) -> (r: Option<Ipv4Addr>)
    ensures
        r == spec_parse_ipv4(s@),
{
    let cs = chars_of(s);
    parse_ipv4_chars(&cs)
}

/// The position of the first empty part, or the length if every part is
/// non-empty.
pub open spec fn first_empty_at(ps: Seq<Seq<char>>) -> int
    decreases ps.len(),
{
    if ps.len() == 0 {
        0
    } else if ps[0].len() == 0 {
        0
    } else {
        1 + first_empty_at(ps.skip(1))
    }
}

/// `first_empty_at` is pinned down by emptiness at the position and
/// non-emptiness before it.
pub proof fn lemma_first_empty_at_is(ps: Seq<Seq<char>>, e: int)
    requires
        0 <= e <= ps.len(),
        e < ps.len() ==> ps[e].len() == 0,
        forall|i: int| 0 <= i < e ==> #[trigger] ps[i].len() != 0,
    ensures
        first_empty_at(ps) == e,
    decreases ps.len(),
{
    if ps.len() == 0 {
    } else if ps[0].len() == 0 {
        assert(e == 0);
    } else {
        assert(e >= 1);
        lemma_first_empty_at_is(ps.skip(1), e - 1);
    }
}

/// Are all parts of `gs` 16-bit group texts?
pub open spec fn groups_h16(gs: Seq<Seq<char>>) -> bool {
    forall|i: int| 0 <= i < gs.len() ==> is_h16_text(#[trigger] gs[i])
}

/// The group values of `gs`.
pub open spec fn hex_vals(gs: Seq<Seq<char>>) -> Seq<u16> {
    Seq::new(gs.len(), |i: int| hex_val(gs[i]) as u16)
}

/// `n` zero segments.
pub open spec fn zero_segs(n: nat) -> Seq<u16> {
    Seq::new(n, |i: int| 0u16)
}

/// A version-4 address as the last two segments of a version-6 one.
pub open spec fn v4_segs(a: Ipv4Addr) -> Seq<u16> {
    seq![
        ((a.a as u16) * 256 + (a.b as u16)) as u16,
        ((a.c as u16) * 256 + (a.d as u16)) as u16,
    ]
}

/// The segments contributed after a `::`: zero segments, then plain groups,
/// then possibly a trailing version-4 address standing for two segments.
/// The `::` must stand for at least one zero segment.
pub open spec fn tail_segments(front: Seq<u16>, tail: Seq<Seq<char>>) -> Option<Seq<u16>> {
    let f = front.len() as int;
    let t = tail.len() as int;
    if t >= 1 && spec_parse_ipv4(tail.last()) is Some {
        if groups_h16(tail.drop_last()) && f + t + 1 <= 7 {
            match spec_parse_ipv4(tail.last()) {
                Some(a) => Some(
                    front + zero_segs((7 - f - t) as nat) + hex_vals(tail.drop_last()) + v4_segs(a),
                ),
                None => None,
            }
        } else {
            None
        }
    } else {
        if groups_h16(tail) && f + t <= 7 {
            Some(front + zero_segs((8 - f - t) as nat) + hex_vals(tail))
        } else {
            None
        }
    }
}

/// The segments encoded by the colon-separated parts of a version-6
/// address: eight groups, a double colon standing for one or more zero
/// segments, and possibly a trailing version-4 address standing for the
/// last two segments.
pub open spec fn spec_ipv6_parts(ps: Seq<Seq<char>>) -> Option<Seq<u16>> {
    let n = ps.len() as int;
    let e = first_empty_at(ps);
    if e == n {
        if n == 8 && groups_h16(ps) {
            Some(hex_vals(ps))
        } else if n == 7 && groups_h16(ps.take(6)) {
            match spec_parse_ipv4(ps[6]) {
                Some(a) => Some(hex_vals(ps.take(6)) + v4_segs(a)),
                None => None,
            }
        } else {
            None
        }
    } else {
        if !groups_h16(ps.take(e)) {
            None
        } else if e == 0 {
            if 3 <= n && ps[1].len() == 0 {
                if n == 3 && ps[2].len() == 0 {
                    tail_segments(Seq::<u16>::empty(), Seq::<Seq<char>>::empty())
                } else {
                    tail_segments(Seq::<u16>::empty(), ps.skip(2))
                }
            } else {
                None
            }
        } else if e == n - 2 && ps[n - 1].len() == 0 {
            tail_segments(hex_vals(ps.take(e)), Seq::<Seq<char>>::empty())
        } else if e < n - 1 {
            tail_segments(hex_vals(ps.take(e)), ps.skip(e + 1))
        } else {
            None
        }
    }
}

/// The segments of `s` read as a version-6 address.
pub open spec fn spec_parse_ipv6(s: Seq<char>) -> Option<Seq<u16>> {
    spec_ipv6_parts(split_on(s, ':'))
}

/// The address with the given eight segments.
pub open spec fn ipv6_from_segs(segs: Seq<u16>) -> Ipv6Addr {
    Ipv6Addr {
        s0: segs[0],
        s1: segs[1],
        s2: segs[2],
        s3: segs[3],
        s4: segs[4],
        s5: segs[5],
        s6: segs[6],
        s7: segs[7],
    }
}

/// Appends the group values of `parts[lo..hi]` to `segs`, or reports that
/// some part there is not a 16-bit group text.
fn append_groups(parts: &Vec<Vec<char>>, lo: usize, hi: usize, segs: &mut Vec<u16>) -> (ok: bool)
    requires
        lo <= hi <= parts@.len(),
    ensures
        ok ==> groups_h16(parts_view(parts@).subrange(lo as int, hi as int)) && final(segs)@
            == old(segs)@ + hex_vals(parts_view(parts@).subrange(lo as int, hi as int)),
        !ok ==> !groups_h16(parts_view(parts@).subrange(lo as int, hi as int)),
{
    let ghost gs = parts_view(parts@).subrange(lo as int, hi as int);
    let mut j: usize = lo;
    while j < hi
        invariant
            lo <= j <= hi <= parts@.len(),
            gs == parts_view(parts@).subrange(lo as int, hi as int),
            segs@.len() == old(segs)@.len() + (j - lo),
            forall|k: int| 0 <= k < j - lo ==> is_h16_text(#[trigger] gs[k]),
            forall|k: int| 0 <= k < old(segs)@.len() ==> segs@[k] == #[trigger] old(segs)@[k],
            forall|k: int|
                0 <= k < j - lo ==> segs@[old(segs)@.len() + k] == hex_val(#[trigger] gs[k]) as u16,
        decreases hi - j,
    {
        match parse_h16(&parts[j]) {
            Some(x) => {
                segs.push(x);
            },
            None => {
                proof {
                    assert(gs[j - lo] == parts@[j as int]@);
                }
                return false;
            },
        }
        j = j + 1;
    }
    proof {
        assert(segs@ =~= old(segs)@ + hex_vals(gs));
    }
    true
}

/// Appends `k` zero segments to `segs`.
fn append_zero_segs(segs: &mut Vec<u16>, k: usize)
    ensures
        final(segs)@ == old(segs)@ + zero_segs(k as nat),
{
    let mut j: usize = 0;
    while j < k
        invariant
            j <= k,
            segs@ == old(segs)@ + zero_segs(j as nat),
        decreases k - j,
    {
        segs.push(0);
        proof {
            assert(segs@ =~= old(segs)@ + zero_segs(j as nat + 1));
        }
        j = j + 1;
    }
}

/// Appends the two segments a version-4 address stands for.
fn append_v4_segs(segs: &mut Vec<u16>, a: Ipv4Addr)
    ensures
        final(segs)@ == old(segs)@ + v4_segs(a),
{
    segs.push((a.a as u16) * 256 + (a.b as u16));
    segs.push((a.c as u16) * 256 + (a.d as u16));
    proof {
        assert(segs@ =~= old(segs)@ + v4_segs(a));
    }
}

/// The address with the segments collected in `segs`.
fn ipv6_of_vec(segs: &Vec<u16>) -> (a: Ipv6Addr)
    requires
        segs@.len() == 8,
    ensures
        a.segs() == segs@,
{
    let a = Ipv6Addr {
        s0: segs[0],
        s1: segs[1],
        s2: segs[2],
        s3: segs[3],
        s4: segs[4],
        s5: segs[5],
        s6: segs[6],
        s7: segs[7],
    };
    proof {
        assert(a.segs() =~= segs@);
    }
    a
}

/// Finishes a compressed address: appends to the front groups in `segs` the
/// zero segments and the parts `parts[tlo..thi]` after the double colon,
/// exactly as `tail_segments` says.
fn parse_ipv6_tail(parts: &Vec<Vec<char>>, tlo: usize, thi: usize, segs: Vec<u16>) -> (r: Option<
    Ipv6Addr,
>)
    requires
        tlo <= thi <= parts@.len(),
    ensures
        match r {
            Some(a) => tail_segments(segs@, parts_view(parts@).subrange(tlo as int, thi as int))
                == Some(a.segs()),
            None => tail_segments(
                segs@,
                parts_view(parts@).subrange(tlo as int, thi as int),
            ) is None,
        },
{
    let ghost front = segs@;
    let ghost tail = parts_view(parts@).subrange(tlo as int, thi as int);
    let mut segs = segs;
    let f = segs.len();
    let t = thi - tlo;
    if t >= 1 {
        proof {
            assert(tail.last() == parts@[thi - 1]@);
        }
        match parse_ipv4_chars(&parts[thi - 1]) {
            Some(a4) => {
                if f > 7 || t > 7 || f + t + 1 > 7 {
                    return None;
                }
                append_zero_segs(&mut segs, 7 - f - t);
                if !append_groups(&parts, tlo, thi - 1, &mut segs) {
                    proof {
                        assert(parts_view(parts@).subrange(tlo as int, thi - 1)
                            =~= tail.drop_last());
                    }
                    return None;
                }
                proof {
                    assert(parts_view(parts@).subrange(tlo as int, thi - 1) =~= tail.drop_last());
                }
                append_v4_segs(&mut segs, a4);
                proof {
                    assert(segs@ =~= front + zero_segs((7 - f - t) as nat) + hex_vals(
                        tail.drop_last(),
                    ) + v4_segs(a4));
                }
                Some(ipv6_of_vec(&segs))
            },
            None => {
                if f > 7 || t > 7 || f + t > 7 {
                    return None;
                }
                append_zero_segs(&mut segs, 8 - f - t);
                if !append_groups(&parts, tlo, thi, &mut segs) {
                    return None;
                }
                proof {
                    assert(segs@ =~= front + zero_segs((8 - f - t) as nat) + hex_vals(tail));
                }
                Some(ipv6_of_vec(&segs))
            },
        }
    } else {
        if f > 7 {
            return None;
        }
        append_zero_segs(&mut segs, 8 - f);
        proof {
            assert(hex_vals(tail) =~= Seq::<u16>::empty());
            assert(segs@ =~= front + zero_segs((8 - f) as nat) + hex_vals(tail));
        }
        Some(ipv6_of_vec(&segs))
    }
}

/// Reads a version-6 address, exactly as `spec_parse_ipv6` says.
pub fn parse_ipv6_chars(v: &Vec<char>) -> (r: Option<Ipv6Addr>)
    ensures
        match r {
            Some(a) => spec_parse_ipv6(v@) == Some(a.segs()),
            None => spec_parse_ipv6(v@) is None,
        },
{
    let parts = split_chars(v, ':');
    let ghost ps = split_on(v@, ':');
    let n = parts.len();

    // the position of the first empty part
    let mut e: usize = 0;
    while e < n && parts[e].len() != 0
        invariant
            e <= n,
            n == parts@.len(),
            ps == parts_view(parts@),
            forall|i: int| 0 <= i < e ==> #[trigger] ps[i].len() != 0,
        decreases n - e,
    {
        e = e + 1;
    }
    proof {
        lemma_first_empty_at_is(ps, e as int);
    }

    if e == n {
        if n == 8 {
            let mut segs: Vec<u16> = Vec::new();
            let ok = append_groups(&parts, 0, 8, &mut segs);
            proof {
                assert(ps.subrange(0, 8) =~= ps);
            }
            if !ok {
                return None;
            }
            proof {
                assert(segs@ =~= hex_vals(ps));
            }
            return Some(ipv6_of_vec(&segs));
        } else if n == 7 {
            let mut segs: Vec<u16> = Vec::new();
            let ok = append_groups(&parts, 0, 6, &mut segs);
            proof {
                assert(ps.subrange(0, 6) =~= ps.take(6));
            }
            if !ok {
                return None;
            }
            match parse_ipv4_chars(&parts[6]) {
                Some(a4) => {
                    append_v4_segs(&mut segs, a4);
                    proof {
                        assert(segs@ =~= hex_vals(ps.take(6)) + v4_segs(a4));
                    }
                    return Some(ipv6_of_vec(&segs));
                },
                None => {
                    return None;
                },
            }
        } else {
            return None;
        }
    }

    // `e` marks a candidate double colon
    let mut segs: Vec<u16> = Vec::new();
    let ok = append_groups(&parts, 0, e, &mut segs);
    proof {
        assert(ps.subrange(0, e as int) =~= ps.take(e as int));
    }
    if !ok {
        return None;
    }
    proof {
        assert(segs@ == hex_vals(ps.take(e as int)));
    }

    // the bounds of the part list after the double colon
    let (tlo, thi): (usize, usize) = if e == 0 {
        if n >= 3 && parts[1].len() == 0 {
            if n == 3 && parts[2].len() == 0 {
                (0, 0)
            } else {
                (2, n)
            }
        } else {
            return None;
        }
    } else if e == n - 2 && parts[n - 1].len() == 0 {
        (0, 0)
    } else if e < n - 1 {
        (e + 1, n)
    } else {
        return None;
    };
    proof {
        if tlo == thi {
            assert(ps.subrange(tlo as int, thi as int) =~= Seq::<Seq<char>>::empty());
        } else {
            assert(ps.subrange(tlo as int, thi as int) =~= ps.skip(tlo as int));
        }
        assert(spec_ipv6_parts(ps) == tail_segments(
            segs@,
            ps.subrange(tlo as int, thi as int),
        ));
    }
    parse_ipv6_tail(&parts, tlo, thi, segs)
}

/// The value of `s` read as an IP address of either version.
pub open spec fn spec_parse_ip(s: Seq<char>) -> Option<IpAddr> {
    match spec_parse_ipv4(s) {
        Some(a) => Some(IpAddr::V4(a)),
        None => match spec_parse_ipv6(s) {
            Some(segs) => Some(IpAddr::V6(ipv6_from_segs(segs))),
            None => None,
        },
    }
}

/// Reads an IP address of either version, exactly as `spec_parse_ip` says.
pub fn parse_ip(s: &str) -> (r: Option<IpAddr>)
    ensures
        r == spec_parse_ip(s@),
{
    let cs = chars_of(s);
    match parse_ipv4_chars(&cs) {
        Some(a) => Some(IpAddr::V4(a)),
        None => match parse_ipv6_chars(&cs) {
            Some(a) => {
                proof {
                    assert(ipv6_from_segs(a.segs()) == a);
                }
                Some(IpAddr::V6(a))
            },
            None => None,
        },
    }
}

} // verus!
