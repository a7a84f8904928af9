use vstd::prelude::*;

verus! {

pub open spec fn is_digit(c: char) -> bool {
    '0' <= c <= '9'
}

pub open spec fn all_digits(ds: Seq<char>) -> bool {
    forall|i: int| 0 <= i < ds.len() ==> is_digit(#[trigger] ds[i])
}

/// The number written by the decimal digits `ds`.
pub open spec fn digits_value(ds: Seq<char>) -> int
    decreases ds.len(),
{
    if ds.len() == 0 {
        0
    } else {
        digits_value(ds.drop_last()) * 10 + (ds.last() as int - '0' as int)
    }
}

/// `s` read as an `i32` in decimal, with an optional leading `+` or `-`;
/// `None` where it holds anything else or the value does not fit.
pub open spec fn parse_i32(s: Seq<char>) -> Option<i32> {
    let signed = s.len() > 0 && (s[0] == '-' || s[0] == '+');
    let ds = if signed {
        s.skip(1)
    } else {
        s
    };
    let v = if s.len() > 0 && s[0] == '-' {
        -digits_value(ds)
    } else {
        digits_value(ds)
    };
    if ds.len() == 0 || !all_digits(ds) || v < i32::MIN || v > i32::MAX {
        None
    } else {
        Some(v as i32)
    }
}

/// The status that `exit` ends the shell with: the argument as a number,
/// or 0 where it is absent or not one.
pub open spec fn exit_code_of(s: Seq<char>) -> i32 {
    match parse_i32(s) {
        Some(v) => v,
        None => 0,
    }
}

proof fn lemma_digits_value_grows(ds: Seq<char>, j: int)
    requires
        all_digits(ds),
        0 <= j <= ds.len(),
    ensures
        0 <= digits_value(ds.take(j)) <= digits_value(ds),
    decreases ds.len(),
{
    if ds.len() > 0 {
        let p = ds.drop_last();
        assert(all_digits(p)) by {
            assert forall|i: int| 0 <= i < p.len() implies is_digit(#[trigger] p[i]) by {
                assert(p[i] == ds[i]);
            }
        }
        assert(is_digit(ds[ds.len() - 1]));
        if j < ds.len() {
            assert(p.take(j) =~= ds.take(j));
            lemma_digits_value_grows(p, j);
        } else {
            lemma_digits_value_grows(p, 0);
            assert(ds.take(j) =~= ds);
        }
    } else {
        assert(ds.take(j) =~= ds);
    }
}

/// Reads the status argument of `exit`.
pub fn parse_exit_code(s: &str) -> (r: i32)
    ensures
        r == exit_code_of(s@),
{
    let n = s.unicode_len();
    if n == 0 {
        return 0;
    }
    let first = s.get_char(0);
    let neg = first == '-';
    let start: usize = if first == '-' || first == '+' {
        1
    } else {
        0
    };
    let ghost ds = s@.subrange(start as int, n as int);
    assert(ds =~= (if start == 1 {
        s@.skip(1)
    } else {
        s@
    }));
    if start == n {
        return 0;
    }
    let mut acc: i64 = 0;
    let mut i: usize = start;
    assert(ds.take(0) =~= Seq::<char>::empty());
    while i < n
        invariant
            start <= i <= n,
            n == s@.len(),
            ds == s@.subrange(start as int, n as int),
            acc == digits_value(ds.take(i - start)),
            0 <= acc <= 2147483648,
            all_digits(ds.take(i - start)),
            neg == (s@[0] == '-'),
            (start == 1) == (s@[0] == '-' || s@[0] == '+'),
            start <= 1,
        decreases n - i,
    {
        let c = s.get_char(i);
        assert(ds[i - start] == c);
        if !('0' <= c && c <= '9') {
            assert(!all_digits(ds));
            return 0;
        }
        let d = (c as u32 - '0' as u32) as i64;
        let ghost next = ds.take(i - start + 1);
        assert(next.drop_last() =~= ds.take(i - start));
        assert(next.last() == c);
        acc = acc * 10 + d;
        assert(all_digits(next)) by {
            assert forall|k: int| 0 <= k < next.len() implies is_digit(#[trigger] next[k]) by {
                if k < next.len() - 1 {
                    assert(next[k] == ds.take(i - start)[k]);
                }
            }
        }
        if acc > 2147483648 {
            proof {
                if start == 1 {
                    assert(ds =~= s@.skip(1));
                } else {
                    assert(ds =~= s@);
                }
                if all_digits(ds) {
                    lemma_digits_value_grows(ds, i - start + 1);
                }
            }
            return 0;
        }
        i = i + 1;
    }
    assert(ds.take(n - start) =~= ds);
    let v: i64 = if neg {
        -acc
    } else {
        acc
    };
    if v < -2147483648 || v > 2147483647 {
        0
    } else {
        v as i32
    }
}

} // verus!
