//! Reading the process identifiers that `pgrep` prints, one per line.

use vstd::prelude::*;

verus! {

/// Whether `c` is an ASCII decimal digit.
pub open spec fn is_digit(c: char) -> bool {
    '0' <= c && c <= '9'
}

/// Whether every character of `s` is an ASCII decimal digit.
pub open spec fn all_digits(s: Seq<char>) -> bool {
    forall|k: int| 0 <= k < s.len() ==> is_digit(#[trigger] s[k])
}

/// Value of the decimal digits `s`.
pub open spec fn digits_value(s: Seq<char>) -> int
    decreases s.len(),
{
    if s.len() == 0 {
        0
    } else {
        digits_value(s.drop_last()) * 10 + (s.last() as int - '0' as int)
    }
}

/// The digits of a number written as `s`: what follows its sign, if any.
pub open spec fn unsigned_part(s: Seq<char>) -> Seq<char> {
    if s.len() > 0 && (s[0] == '-' || s[0] == '+') {
        s.drop_first()
    } else {
        s
    }
}

/// The 32-bit integer `s` writes, as Rust's `str::parse::<i32>` reads it: an
/// optional sign, then at least one decimal digit, nothing else, and a value
/// in the range of `i32`.
pub open spec fn parsed_i32(s: Seq<char>) -> Option<i32> {
    let ds = unsigned_part(s);
    if ds.len() == 0 || !all_digits(ds) {
        None
    } else {
        let v = if s[0] == '-' {
            -digits_value(ds)
        } else {
            digits_value(ds)
        };
        if i32::MIN <= v <= i32::MAX {
            Some(v as i32)
        } else {
            None
        }
    }
}

/// The pieces of `s` between its newlines: one more than it has newlines.
pub open spec fn split_nl(s: Seq<char>) -> Seq<Seq<char>>
    decreases s.len(),
{
    if s.len() == 0 {
        seq![seq![]]
    } else {
        let p = split_nl(s.drop_last());
        if s.last() == '\n' {
            p.push(seq![])
        } else {
            p.update(p.len() - 1, p.last().push(s.last()))
        }
    }
}

/// A line ended by a newline, without the carriage return before it.
pub open spec fn strip_cr(l: Seq<char>) -> Seq<char> {
    if l.len() > 0 && l.last() == '\r' {
        l.drop_last()
    } else {
        l
    }
}

/// The lines of `s`, as Rust's `str::lines` gives them: split at newlines,
/// each line ended by a newline without the carriage return before it, and
/// the last line left out where it is empty.
pub open spec fn lines_of(s: Seq<char>) -> Seq<Seq<char>> {
    let p = split_nl(s);
    let done = p.drop_last().map_values(|l: Seq<char>| strip_cr(l));
    if p.last().len() == 0 {
        done
    } else {
        done.push(p.last())
    }
}

/// The 32-bit integers written by the lines `ls` that write one, in order.
pub open spec fn parsed_lines(ls: Seq<Seq<char>>) -> Seq<i32>
    decreases ls.len(),
{
    if ls.len() == 0 {
        seq![]
    } else {
        let rest = parsed_lines(ls.drop_last());
        match parsed_i32(ls.last()) {
            Some(v) => rest.push(v),
            None => rest,
        }
    }
}

/// There is always a piece, the one after the last newline.
proof fn lemma_split_nonempty(s: Seq<char>)
    ensures
        split_nl(s).len() >= 1,
    decreases s.len(),
{
    if s.len() > 0 {
        lemma_split_nonempty(s.drop_last());
    }
}

/// A value of digits is not negative.
proof fn lemma_digits_nonneg(s: Seq<char>)
    requires
        all_digits(s),
    ensures
        digits_value(s) >= 0,
    decreases s.len(),
{
    if s.len() > 0 {
        lemma_digits_nonneg(s.drop_last());
    }
}

/// A value of digits is at least that of any of its prefixes.
proof fn lemma_digits_grow(s: Seq<char>, k: int)
    requires
        all_digits(s),
        0 <= k <= s.len(),
    ensures
        digits_value(s.take(k)) <= digits_value(s),
    decreases s.len(),
{
    if k < s.len() {
        let t = s.drop_last();
        lemma_digits_grow(t, k);
        lemma_digits_nonneg(t);
        assert(t.take(k) =~= s.take(k));
    } else {
        assert(s.take(k) =~= s);
    }
}

/// The integer written by the characters of `s` from `from` to `to` (see
/// [`parsed_i32`]).
fn parse_i32(s: &str, from: usize, to: usize) -> (r: Option<i32>)
    requires
        from <= to <= s@.len(),
    ensures
        r == parsed_i32(s@.subrange(from as int, to as int)),
{
    let ghost line = s@.subrange(from as int, to as int);
    if from == to {
        return None;
    }
    let first = s.get_char(from);
    let neg = first == '-';
    let start: usize = if first == '-' || first == '+' {
        from + 1
    } else {
        from
    };
    let ghost ds = unsigned_part(line);
    assert(line[0] == first);
    assert(ds =~= s@.subrange(start as int, to as int));
    if start == to {
        assert(ds.len() == 0);
        return None;
    }
    let mut acc: u64 = 0;
    let mut i: usize = start;
    while i < to
        invariant
            start <= i <= to,
            to <= s@.len(),
            line == s@.subrange(from as int, to as int),
            ds == unsigned_part(line),
            ds.len() > 0,
            ds == s@.subrange(start as int, to as int),
            acc == digits_value(ds.take(i - start)),
            acc <= 0x8000_0000,
            all_digits(ds.take(i - start)),
        decreases to - i,
    {
        let c = s.get_char(i);
        assert(ds[i - start] == c);
        if !('0' <= c && c <= '9') {
            assert(!is_digit(ds[i - start]));
            return None;
        }
        let d: u64 = (c as u64) - ('0' as u64);
        let next: u64 = acc * 10 + d;
        assert(ds.take(i - start + 1).drop_last() =~= ds.take(i - start));
        assert(all_digits(ds.take(i - start + 1)));
        if next > 0x8000_0000 {
            proof {
                if all_digits(ds) {
                    lemma_digits_grow(ds, i - start + 1);
                }
            }
            return None;
        }
        acc = next;
        i = i + 1;
    }
    assert(ds.take(i - start) =~= ds);
    if neg {
        let v: i64 = 0 - (acc as i64);
        Some(v as i32)
    } else if acc <= 0x7fff_ffff {
        Some(acc as i32)
    } else {
        None
    }
}

/// The process identifiers that the output `output` of `pgrep` lists: the
/// lines that write a 32-bit integer, read as Rust's `str::lines` and
/// `str::parse::<i32>` read them, in order.
pub fn pids_of(output: &str) -> (pids: Vec<i32>)
    ensures
        pids@ == parsed_lines(lines_of(output@)),
{
    let n = output.unicode_len();
    let mut pids: Vec<i32> = Vec::new();
    let mut start: usize = 0;
    let mut i: usize = 0;
    while i < n
        invariant
            n == output@.len(),
            start <= i <= n,
            split_nl(output@.take(i as int)).last() == output@.subrange(start as int, i as int),
            pids@ == parsed_lines(split_nl(output@.take(i as int)).drop_last().map_values(|l: Seq<char>| strip_cr(l))),
        decreases n - i,
    {
        let c = output.get_char(i);
        let ghost t = output@.take(i as int);
        let ghost p = split_nl(t);
        proof {
            lemma_split_nonempty(t);
        }
        assert(output@.take(i as int + 1).drop_last() =~= t);
        assert(output@.take(i as int + 1).last() == c);
        if c == '\n' {
            let end: usize = if i > start && output.get_char(i - 1) == '\r' {
                i - 1
            } else {
                i
            };
            proof {
                let l = p.last();
                assert(strip_cr(l) =~= output@.subrange(start as int, end as int));
                let q = split_nl(output@.take(i as int + 1));
                assert(q.drop_last() =~= p);
                let m = p.map_values(|l: Seq<char>| strip_cr(l));
                assert(m.drop_last() =~= p.drop_last().map_values(|l: Seq<char>| strip_cr(l)));
                assert(m.last() == strip_cr(p.last()));
            }
            match parse_i32(output, start, end) {
                Some(v) => pids.push(v),
                None => {},
            }
            start = i + 1;
            proof {
                assert(output@.subrange(start as int, i as int + 1) =~= seq![]);
            }
        } else {
            proof {
                let q = split_nl(output@.take(i as int + 1));
                assert(q.drop_last() =~= p.drop_last());
                assert(q.last() =~= output@.subrange(start as int, i as int + 1));
            }
        }
        i = i + 1;
    }
    assert(output@.take(n as int) =~= output@);
    proof {
        lemma_split_nonempty(output@);
    }
    let ghost p = split_nl(output@);
    let ghost done = p.drop_last().map_values(|l: Seq<char>| strip_cr(l));
    if start < n {
        let last = parse_i32(output, start, n);
        proof {
            assert(lines_of(output@) == done.push(p.last()));
            assert(lines_of(output@).drop_last() =~= done);
        }
        match last {
            Some(v) => pids.push(v),
            None => {},
        }
    } else {
        assert(lines_of(output@) == done);
    }
    pids
}

} // verus!
