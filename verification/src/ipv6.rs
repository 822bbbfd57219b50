//! Parsing of textual IPv6 addresses into their 16-bit groups.
//!
//! The address is first widened: when it holds fewer than seven colons,
//! every `::` is replaced by a run of colons long enough to bring an
//! address with a single gap up to eight groups.  The widened text is then
//! split on colons, an empty group stands for zero, and every other group
//! is read as hexadecimal, with an optional leading `+` as the integer
//! parser of the standard library accepts.

use vstd::prelude::*;

use vstd::string::StrSliceExecFns;

verus! {

/// How many colons the text holds.
pub open spec fn colon_count(s: Seq<char>) -> nat
    decreases s.len(),
{
    if s.len() == 0 {
        0
    } else {
        colon_count(s.drop_last()) + if s.last() == ':' {
            1nat
        } else {
            0nat
        }
    }
}

/// A run of `n` colons.
pub open spec fn gap_chars(n: nat) -> Seq<char> {
    Seq::new(n, |i: int| ':')
}

/// The text with every `::`, scanned left to right without overlap,
/// replaced by `repl`.
pub open spec fn replace_gaps(s: Seq<char>, repl: Seq<char>) -> Seq<char>
    decreases s.len(),
{
    if s.len() < 2 {
        s
    } else if s[0] == ':' && s[1] == ':' {
        repl + replace_gaps(s.skip(2), repl)
    } else {
        seq![s[0]] + replace_gaps(s.skip(1), repl)
    }
}

/// The widened address text: with fewer than seven colons, every `::`
/// becomes a run of colons sized to complete a single gap to eight groups;
/// otherwise the text is left alone.
pub open spec fn expanded(s: Seq<char>) -> Seq<char> {
    if colon_count(s) < 7 {
        replace_gaps(s, gap_chars((9 - colon_count(s)) as nat))
    } else {
        s
    }
}

/// The text split on colons; always at least one group.
pub open spec fn split_colons(s: Seq<char>) -> Seq<Seq<char>>
    decreases s.len(),
{
    if s.len() == 0 {
        seq![Seq::<char>::empty()]
    } else if s.last() == ':' {
        split_colons(s.drop_last()).push(Seq::<char>::empty())
    } else {
        let rest = split_colons(s.drop_last());
        rest.update(rest.len() - 1, rest.last().push(s.last()))
    }
}

/// The value of a hexadecimal digit, if the character is one.
pub open spec fn hex_digit(c: char) -> Option<u16> {
    if '0' as u32 <= c as u32 && c as u32 <= '9' as u32 {
        Some((c as u32 - '0' as u32) as u16)
    } else if 'a' as u32 <= c as u32 && c as u32 <= 'f' as u32 {
        Some((c as u32 - 'a' as u32 + 10) as u16)
    } else if 'A' as u32 <= c as u32 && c as u32 <= 'F' as u32 {
        Some((c as u32 - 'A' as u32 + 10) as u16)
    } else {
        None
    }
}

/// The value of a non-empty run of hexadecimal digits, if that is what the
/// text is; unbounded, since leading digits weigh sixteen-fold each.
pub open spec fn hex_value(s: Seq<char>) -> Option<int>
    decreases s.len(),
{
    if s.len() == 0 {
        None
    } else if s.len() == 1 {
        match hex_digit(s[0]) {
            Some(d) => Some(d as int),
            None => None,
        }
    } else {
        match (hex_value(s.drop_last()), hex_digit(s.last())) {
            (Some(v), Some(d)) => Some(v * 16 + d),
            _ => None,
        }
    }
}

/// The text read as a hexadecimal `u16` the way the standard library's
/// integer parser reads it: an optional leading `+`, then at least one
/// digit, and a value that fits.
pub open spec fn from_hex_u16(s: Seq<char>) -> Option<u16> {
    let digits = if s.len() >= 1 && s[0] == '+' {
        s.skip(1)
    } else {
        s
    };
    match hex_value(digits) {
        Some(v) => if v <= 0xFFFF {
            Some(v as u16)
        } else {
            None
        },
        None => None,
    }
}

/// The value of one colon-separated group: empty stands for zero.
pub open spec fn group_value(s: Seq<char>) -> Option<u16> {
    if s.len() == 0 {
        Some(0)
    } else {
        from_hex_u16(s)
    }
}

/// The groups an address text decomposes into.
pub open spec fn ipv6_groups(s: Seq<char>) -> Seq<Seq<char>> {
    split_colons(expanded(s))
}

/// The characters of a string, in order.
fn str_chars(s: &str) -> (v: Vec<char>)
    ensures
        v@ == s@,
{
    let n = s.unicode_len();
    let mut v: Vec<char> = Vec::new();
    let mut i: usize = 0;
    while i < n
        invariant
            i <= n,
            n == s@.len(),
            v@.len() == i,
            forall|j: int| 0 <= j < i ==> v@[j] == s@[j],
        decreases n - i,
    {
        v.push(s.get_char(i));
        i = i + 1;
    }
    proof {
        assert(v@ =~= s@);
    }
    v
}

/// Counts the colons of the text.
fn count_colons(chars: &Vec<char>) -> (n: usize)
    ensures
        n == colon_count(chars@),
{
    let mut n: usize = 0;
    let mut i: usize = 0;
    while i < chars.len()
        invariant
            i <= chars@.len(),
            n <= i,
            n == colon_count(chars@.take(i as int)),
        decreases chars@.len() - i,
    {
        proof {
            assert(chars@.take(i + 1).drop_last() =~= chars@.take(i as int));
            assert(chars@.take(i + 1).last() == chars@[i as int]);
        }
        if chars[i] == ':' {
            n = n + 1;
        }
        i = i + 1;
    }
    proof {
        assert(chars@.take(chars@.len() as int) =~= chars@);
    }
    n
}

/// Widens the text: every `::` becomes a run of `9 - count` colons.
fn expand_gaps(chars: &Vec<char>, count: usize) -> (out: Vec<char>)
    requires
        count == colon_count(chars@),
        count < 7,
    ensures
        out@ == replace_gaps(chars@, gap_chars((9 - count) as nat)),
{
    let ghost repl = gap_chars((9 - count) as nat);
    let mut out: Vec<char> = Vec::new();
    let mut i: usize = 0;
    proof {
        assert(chars@.skip(0) =~= chars@);
        assert(out@ + replace_gaps(chars@, repl) =~= replace_gaps(chars@, repl));
    }
    while i < chars.len()
        invariant
            i <= chars@.len(),
            count < 7,
            out@ + replace_gaps(chars@.skip(i as int), repl) == replace_gaps(chars@, repl),
            repl == gap_chars((9 - count) as nat),
        decreases chars@.len() - i,
    {
        let ghost tail = chars@.skip(i as int);
        if i + 1 < chars.len() && chars[i] == ':' && chars[i + 1] == ':' {
            proof {
                assert(tail[0] == ':' && tail[1] == ':');
                assert(tail.skip(2) =~= chars@.skip(i + 2));
                assert(replace_gaps(tail, repl) == repl + replace_gaps(chars@.skip(i + 2), repl));
            }
            let ghost out0 = out@;
            let mut j: usize = 0;
            while j < 9 - count
                invariant
                    j <= 9 - count,
                    count < 7,
                    out@ == out0 + gap_chars(j as nat),
                decreases 9 - count - j,
            {
                out.push(':');
                proof {
                    assert(out@ =~= out0 + gap_chars((j + 1) as nat));
                }
                j = j + 1;
            }
            proof {
                assert(gap_chars((9 - count) as nat) =~= repl);
                assert(out@ == out0 + repl);
            }
            i = i + 2;
        } else {
            out.push(chars[i]);
            proof {
                if tail.len() < 2 {
                    assert(tail =~= seq![chars@[i as int]]);
                    assert(replace_gaps(tail, repl) == tail);
                    assert(chars@.skip(i + 1) =~= Seq::<char>::empty());
                    assert(replace_gaps(chars@.skip(i + 1), repl) =~= Seq::<char>::empty());
                } else {
                    assert(tail[0] == chars@[i as int] && tail[1] == chars@[i + 1]);
                    assert(tail.skip(1) =~= chars@.skip(i + 1));
                    assert(replace_gaps(tail, repl) == seq![chars@[i as int]] + replace_gaps(
                        chars@.skip(i + 1),
                        repl,
                    ));
                }
            }
            i = i + 1;
        }
    }
    proof {
        assert(chars@.skip(chars@.len() as int) =~= Seq::<char>::empty());
        assert(out@ + Seq::<char>::empty() =~= out@);
    }
    out
}

/// A text containing a non-digit is not a run of hexadecimal digits.
proof fn lemma_hex_value_bad(s: Seq<char>, i: int)
    requires
        0 <= i < s.len(),
        hex_digit(s[i]) is None,
    ensures
        hex_value(s) is None,
    decreases s.len(),
{
    if i < s.len() - 1 {
        lemma_hex_value_bad(s.drop_last(), i);
    }
}

/// The value of a hexadecimal digit, if the character is one.
fn hex_digit_val(c: char) -> (r: Option<u16>)
    ensures
        r == hex_digit(c),
{
    let u = c as u32;
    if '0' as u32 <= u && u <= '9' as u32 {
        Some((u - '0' as u32) as u16)
    } else if 'a' as u32 <= u && u <= 'f' as u32 {
        Some((u - 'a' as u32 + 10) as u16)
    } else if 'A' as u32 <= u && u <= 'F' as u32 {
        Some((u - 'A' as u32 + 10) as u16)
    } else {
        None
    }
}

/// Reads one colon-separated group: empty stands for zero, anything else
/// must be hexadecimal (with an optional leading `+`) and fit in sixteen
/// bits.
fn parse_hex_group(chars: &Vec<char>) -> (r: Option<u16>)
    ensures
        r == group_value(chars@),
{
    let n = chars.len();
    if n == 0 {
        return Some(0);
    }
    let start: usize = if chars[0] == '+' {
        1
    } else {
        0
    };
    let ghost digits = chars@.skip(start as int);
    if n == start {
        proof {
            assert(digits =~= Seq::<char>::empty());
        }
        return None;
    }
    let mut acc: u32 = 0;
    let mut i: usize = start;
    while i < n
        invariant
            start <= i <= n,
            n == chars@.len(),
            start <= 1,
            start == 1 ==> chars@[0] == '+',
            start == 0 ==> chars@[0] != '+',
            n > start,
            digits == chars@.skip(start as int),
            acc <= 0x10000,
            i > start ==> ({
                let hv = hex_value(digits.take(i - start));
                &&& hv is Some
                &&& (hv.unwrap() <= 0xFFFF ==> acc == hv.unwrap())
                &&& (hv.unwrap() > 0xFFFF ==> acc == 0x10000)
            }),
            i == start ==> acc == 0,
        decreases n - i,
    {
        let c = chars[i];
        proof {
            assert(digits[i - start] == chars@[i as int]);
        }
        match hex_digit_val(c) {
            None => {
                proof {
                    lemma_hex_value_bad(digits, i - start);
                    if start == 0 {
                        assert(chars@.skip(0) =~= chars@);
                    }
                }
                return None;
            },
            Some(d) => {
                proof {
                    assert(digits.take(i + 1 - start).drop_last() =~= digits.take(i - start));
                    assert(digits.take(i + 1 - start).last() == digits[i - start]);
                }
                let a2: u32 = if acc > 0xFFFF {
                    0x10000
                } else {
                    acc * 16 + (d as u32)
                };
                acc = if a2 > 0xFFFF {
                    0x10000
                } else {
                    a2
                };
            },
        }
        i = i + 1;
    }
    proof {
        assert(digits.take(n - start) =~= digits);
        if start == 0 {
            assert(chars@.skip(0) =~= chars@);
        }
    }
    if acc > 0xFFFF {
        None
    } else {
        Some(acc as u16)
    }
}

/// A split always yields at least one group.
proof fn lemma_split_nonempty(s: Seq<char>)
    ensures
        split_colons(s).len() >= 1,
    decreases s.len(),
{
    if s.len() > 0 {
        lemma_split_nonempty(s.drop_last());
    }
}

/// Splitting a prefix of the text yields a prefix of the final groups:
/// every group the prefix completes is a group of the whole text, and when
/// the prefix stops right before a colon, its last group is complete too.
proof fn lemma_split_prefix(e: Seq<char>, j: int)
    requires
        0 <= j <= e.len(),
    ensures
        split_colons(e.take(j)).len() <= split_colons(e).len(),
        forall|m: int|
            0 <= m < split_colons(e.take(j)).len() - 1 ==> #[trigger] split_colons(e.take(j))[m]
                == split_colons(e)[m],
        j < e.len() && e[j] == ':' ==> split_colons(e.take(j)).last() == split_colons(e)[
            split_colons(e.take(j)).len() - 1],
    decreases e.len() - j,
{
    lemma_split_nonempty(e.take(j));
    if j == e.len() {
        assert(e.take(j) =~= e);
    } else {
        lemma_split_prefix(e, j + 1);
        lemma_split_nonempty(e.take(j + 1));
        assert(e.take(j + 1).drop_last() =~= e.take(j));
        assert(e.take(j + 1).last() == e[j]);
        let prev = split_colons(e.take(j));
        let lj = prev.len();
        if e[j] == ':' {
            assert(split_colons(e.take(j + 1)) == prev.push(Seq::<char>::empty()));
            assert forall|m: int| 0 <= m < lj - 1 implies #[trigger] prev[m]
                == split_colons(e)[m] by {
                assert(prev[m] == split_colons(e.take(j + 1))[m]);
            }
            assert(prev.last() == split_colons(e.take(j + 1))[lj - 1]);
            assert(prev.last() == split_colons(e)[lj - 1]);
        } else {
            assert(split_colons(e.take(j + 1)) == prev.update(lj - 1, prev.last().push(e[j])));
            assert forall|m: int| 0 <= m < lj - 1 implies #[trigger] prev[m]
                == split_colons(e)[m] by {
                assert(prev[m] == split_colons(e.take(j + 1))[m]);
            }
        }
    }
}

/// Reads an IPv6 address text into its 16-bit groups, exactly as the
/// widening, splitting and hexadecimal reading above describe; the caller
/// owes a text whose groups all read as 16-bit values.
pub fn parse_ipv6_address(address: &str) -> (r: Vec<u16>)
    requires
        forall|m: int|
            0 <= m < ipv6_groups(address@).len() ==> (#[trigger] group_value(
                ipv6_groups(address@)[m],
            )) is Some,
    ensures
        r@.len() == ipv6_groups(address@).len(),
        forall|m: int|
            0 <= m < r@.len() ==> Some(r@[m]) == group_value(#[trigger] ipv6_groups(address@)[m]),
{
    let chars = str_chars(address);
    let count = count_colons(&chars);
    let e: Vec<char> = if count < 7 {
        expand_gaps(&chars, count)
    } else {
        chars
    };
    let ghost es = expanded(address@);
    proof {
        assert(e@ == es);
        assert(ipv6_groups(address@) == split_colons(es));
    }
    let mut out: Vec<u16> = Vec::new();
    let mut cur: Vec<char> = Vec::new();
    let mut j: usize = 0;
    proof {
        assert(es.take(0) =~= Seq::<char>::empty());
    }
    while j < e.len()
        invariant
            j <= es.len(),
            e@ == es,
            es == expanded(address@),
            forall|m: int|
                0 <= m < ipv6_groups(address@).len() ==> (#[trigger] group_value(
                    ipv6_groups(address@)[m],
                )) is Some,
            split_colons(es.take(j as int)).len() >= 1,
            out@.len() == split_colons(es.take(j as int)).len() - 1,
            forall|m: int|
                0 <= m < out@.len() ==> Some(out@[m]) == group_value(
                    #[trigger] split_colons(es.take(j as int))[m],
                ),
            cur@ == split_colons(es.take(j as int)).last(),
        decreases es.len() - j,
    {
        let ghost sp = split_colons(es.take(j as int));
        proof {
            assert(es.take(j + 1).drop_last() =~= es.take(j as int));
            assert(es.take(j + 1).last() == es[j as int]);
        }
        let c = e[j];
        if c == ':' {
            proof {
                lemma_split_prefix(es, j as int);
                assert(split_colons(es.take(j + 1)) == sp.push(Seq::<char>::empty()));
                assert(ipv6_groups(address@) == split_colons(es));
                assert(group_value(ipv6_groups(address@)[sp.len() - 1]) is Some);
                assert(group_value(cur@) is Some);
            }
            let val: u16 = match parse_hex_group(&cur) {
                Some(v) => v,
                None => {
                    proof {
                        assert(false);
                    }
                    0
                },
            };
            out.push(val);
            cur = Vec::new();
        } else {
            proof {
                assert(split_colons(es.take(j + 1)) == sp.update(
                    sp.len() - 1,
                    sp.last().push(es[j as int]),
                ));
            }
            cur.push(c);
        }
        j = j + 1;
    }
    proof {
        assert(es.take(es.len() as int) =~= es);
        assert(ipv6_groups(address@) == split_colons(es));
        assert(group_value(ipv6_groups(address@)[split_colons(es).len() - 1]) is Some);
        assert(group_value(cur@) is Some);
    }
    let val: u16 = match parse_hex_group(&cur) {
        Some(v) => v,
        None => {
            proof {
                assert(false);
            }
            0
        },
    };
    out.push(val);
    out
}

} // verus!
