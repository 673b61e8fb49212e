use vstd::prelude::*;

verus! {

/// Characters that pad an entry of the plugin list.
pub open spec fn is_pad(c: char) -> bool {
    c == ' ' || c == '\t' || c == '\r'
}

pub open spec fn trim_start(s: Seq<char>) -> Seq<char>
    decreases s.len(),
{
    if s.len() > 0 && is_pad(s[0]) {
        trim_start(s.drop_first())
    } else {
        s
    }
}

pub open spec fn trim_end(s: Seq<char>) -> Seq<char>
    decreases s.len(),
{
    if s.len() > 0 && is_pad(s.last()) {
        trim_end(s.drop_last())
    } else {
        s
    }
}

/// `s` without padding at either end.
pub open spec fn trim(s: Seq<char>) -> Seq<char> {
    trim_end(trim_start(s))
}

/// `done` with the trimmed `line` added, unless it is blank.
pub open spec fn close_line(done: Seq<Seq<char>>, line: Seq<char>) -> Seq<Seq<char>> {
    if trim(line).len() == 0 {
        done
    } else {
        done.push(trim(line))
    }
}

/// Reading `t` from the start: the entries of the lines already ended, and
/// the line still open.
pub open spec fn scan(t: Seq<char>) -> (Seq<Seq<char>>, Seq<char>)
    decreases t.len(),
{
    if t.len() == 0 {
        (Seq::empty(), Seq::empty())
    } else {
        let (done, line) = scan(t.drop_last());
        if t.last() == '\n' {
            (close_line(done, line), Seq::empty())
        } else {
            (done, line.push(t.last()))
        }
    }
}

/// The entries of a plugin list: one module path per line, padding trimmed,
/// blank lines skipped.
pub open spec fn plugin_entries(t: Seq<char>) -> Seq<Seq<char>> {
    close_line(scan(t).0, scan(t).1)
}

fn is_pad_char(c: char) -> (r: bool)
    ensures
        r == is_pad(c),
{
    c == ' ' || c == '\t' || c == '\r'
}

/// `line` without padding at either end.
pub fn trim_line(line: &Vec<char>) -> (r: Vec<char>)
    ensures
        r@ == trim(line@),
{
    let s = line;
    let n = s.len();
    let mut a: usize = 0;
    proof {
        assert(s@.skip(0) =~= s@);
    }
    while a < n && is_pad_char(s[a])
        invariant
            a <= n,
            n == s@.len(),
            trim_start(s@) == trim_start(s@.skip(a as int)),
        decreases n - a,
    {
        proof {
            assert(s@.skip(a as int).drop_first() =~= s@.skip(a as int + 1));
        }
        a = a + 1;
    }
    proof {
        assert(trim_start(s@.skip(a as int)) == s@.skip(a as int));
        assert(s@.skip(a as int) =~= s@.subrange(a as int, n as int));
    }
    let mut b: usize = n;
    while b > a && is_pad_char(s[b - 1])
        invariant
            a <= b <= n,
            n == s@.len(),
            trim(s@) == trim_end(s@.subrange(a as int, b as int)),
        decreases b - a,
    {
        proof {
            assert(s@.subrange(a as int, b as int).drop_last() =~= s@.subrange(a as int, b as int - 1));
        }
        b = b - 1;
    }
    let mut out: Vec<char> = Vec::new();
    let mut k: usize = a;
    while k < b
        invariant
            a <= k <= b <= n,
            n == s@.len(),
            out@ == s@.subrange(a as int, k as int),
        decreases b - k,
    {
        out.push(s[k]);
        proof {
            assert(out@ =~= s@.subrange(a as int, k as int + 1));
        }
        k = k + 1;
    }
    out
}

/// The module paths listed in `text`, one per line, padding trimmed and
/// blank lines skipped.
pub fn plugin_paths(text: &Vec<char>) -> (r: Vec<Vec<char>>)
    ensures
        r@.len() == plugin_entries(text@).len(),
        forall|i: int| 0 <= i < r@.len() ==> (#[trigger] r@[i])@ == plugin_entries(text@)[i],
{
    let mut done: Vec<Vec<char>> = Vec::new();
    let mut line: Vec<char> = Vec::new();
    let n = text.len();
    let mut i: usize = 0;
    while i < n
        invariant
            i <= n,
            n == text@.len(),
            done@.len() == scan(text@.take(i as int)).0.len(),
            forall|k: int| 0 <= k < done@.len() ==> (#[trigger] done@[k])@ == scan(text@.take(i as int)).0[k],
            line@ == scan(text@.take(i as int)).1,
        decreases n - i,
    {
        let c = text[i];
        proof {
            assert(text@.take(i as int + 1).drop_last() =~= text@.take(i as int));
            assert(text@.take(i as int + 1).last() == c);
        }
        if c == '\n' {
            let t = trim_line(&line);
            let ghost before = done@;
            if t.len() > 0 {
                done.push(t);
                proof {
                    assert forall|k: int| 0 <= k < done@.len() implies (#[trigger] done@[k])@ == scan(text@.take(i as int + 1)).0[k] by {
                        if k < before.len() {
                            assert(done@[k] == before[k]);
                        }
                    }
                }
            }
            line = Vec::new();
            proof {
                assert(line@ =~= Seq::<char>::empty());
            }
        } else {
            line.push(c);
        }
        i = i + 1;
    }
    proof {
        assert(text@.take(n as int) =~= text@);
    }
    let t = trim_line(&line);
    let ghost before = done@;
    if t.len() > 0 {
        done.push(t);
        proof {
            assert forall|k: int| 0 <= k < done@.len() implies (#[trigger] done@[k])@ == plugin_entries(text@)[k] by {
                if k < before.len() {
                    assert(done@[k] == before[k]);
                }
            }
        }
    }
    done
}

} // verus!
