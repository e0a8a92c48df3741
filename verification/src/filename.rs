//! The file name under which a page image is saved: its number, followed by
//! the extension of the address's last path component without any query.
use vstd::prelude::*;
use crate::text::{
    chars_of, decimal, decimal_string, first_index_of, last_index_of, lemma_first_index_of,
    lemma_last_index_of_bounds, push_char, push_chars,
};

verus! {

/// The last path component of `s` read as a Unix path (`Path::file_name`):
/// empty components and `.` are skipped, and a final `..` has no file name.
pub open spec fn file_name(s: Seq<char>) -> Option<Seq<char>>
    decreases s.len(),
{
    let k = last_index_of(s, '/');
    let seg = s.subrange(k + 1, s.len() as int);
    if seg.len() == 0 || seg == seq!['.'] {
        if k < 0 {
            None
        } else {
            proof {
                lemma_last_index_of_bounds(s, '/');
            }
            file_name(s.take(k))
        }
    } else if seg == seq!['.', '.'] {
        None
    } else {
        Some(seg)
    }
}

/// The extension of the file name of `s` (`Path::extension`): what follows
/// its last `.`, unless there is no `.` or the only `.` starts the name.
pub open spec fn extension(s: Seq<char>) -> Option<Seq<char>> {
    match file_name(s) {
        None => None,
        Some(name) => {
            let p = last_index_of(name, '.');
            if p <= 0 {
                None
            } else {
                Some(name.subrange(p + 1, name.len() as int))
            }
        },
    }
}

/// An extension cut before its first `?`.
pub open spec fn without_query(ext: Seq<char>) -> Seq<char> {
    match first_index_of(ext, '?') {
        Some(i) => ext.take(i),
        None => ext,
    }
}

/// The saved name of page `n` at `address`: `n` in decimal, then `.` and the
/// address's extension without query when it has one.
pub open spec fn page_file_name(address: Seq<char>, n: nat) -> Seq<char> {
    match extension(address) {
        Some(ext) => decimal(n) + seq!['.'] + without_query(ext),
        None => decimal(n),
    }
}

/// Last index of `c` in `cs[from..to]`, relative to `from`.
fn last_index_in(cs: &[char], from: usize, to: usize, c: char) -> (r: Option<usize>)
    requires
        from <= to <= cs@.len(),
    ensures
        match r {
            Some(k) => last_index_of(cs@.subrange(from as int, to as int), c) == k as int,
            None => last_index_of(cs@.subrange(from as int, to as int), c) == -1,
        },
{
    let ghost s = cs@.subrange(from as int, to as int);
    proof {
        lemma_last_index_of_bounds(s, c);
    }
    let mut j = to;
    while j > from
        invariant
            from <= j <= to <= cs@.len(),
            s == cs@.subrange(from as int, to as int),
            forall|m: int| j <= m < to ==> cs@[m] != c,
        decreases j,
    {
        if cs[j - 1] == c {
            let k = j - 1 - from;
            proof {
                lemma_last_index_of_bounds(s, c);
                let l = last_index_of(s, c);
                assert(s[k as int] == c);
                if l > k {
                    assert(cs@[from + l] != c);
                }
                if l < k {
                    assert(s[k as int] != c);
                }
            }
            return Some(k);
        }
        j = j - 1;
    }
    proof {
        lemma_last_index_of_bounds(s, c);
        let l = last_index_of(s, c);
        if l >= 0 {
            assert(cs@[from + l] == c);
        }
    }
    None
}

/// First index of `c` in `cs[from..to]`, relative to `from`.
pub(crate) fn first_index_in(cs: &[char], from: usize, to: usize, c: char) -> (r: Option<usize>)
    requires
        from <= to <= cs@.len(),
    ensures
        match r {
            Some(k) => first_index_of(cs@.subrange(from as int, to as int), c) == Some(k as int),
            None => first_index_of(cs@.subrange(from as int, to as int), c) is None,
        },
{
    let ghost s = cs@.subrange(from as int, to as int);
    proof {
        lemma_first_index_of(s, c);
    }
    let mut j = from;
    while j < to
        invariant
            from <= j <= to <= cs@.len(),
            s == cs@.subrange(from as int, to as int),
            forall|m: int| from <= m < j ==> cs@[m] != c,
        decreases to - j,
    {
        if cs[j] == c {
            let k = j - from;
            proof {
                lemma_first_index_of(s, c);
                assert(s[k as int] == c);
                match first_index_of(s, c) {
                    Some(i) => {
                        if i < k {
                            assert(cs@[from + i] != c);
                        }
                    },
                    None => {},
                }
            }
            return Some(k);
        }
        j = j + 1;
    }
    proof {
        lemma_first_index_of(s, c);
        match first_index_of(s, c) {
            Some(i) => {
                assert(cs@[from + i] != c);
            },
            None => {},
        }
    }
    None
}

/// Bounds of the file name of `cs` within `cs`.
fn file_name_bounds(cs: &[char]) -> (r: Option<(usize, usize)>)
    ensures
        match file_name(cs@) {
            None => r is None,
            Some(name) => r matches Some((a, b)) && a <= b <= cs@.len() && cs@.subrange(
                a as int,
                b as int,
            ) == name,
        },
{
    let mut e = cs.len();
    assert(cs@.subrange(0, e as int) == cs@);
    loop
        invariant
            e <= cs@.len(),
            file_name(cs@) == file_name(cs@.subrange(0, e as int)),
        decreases e,
    {
        let ghost s = cs@.subrange(0, e as int);
        let slash = last_index_in(cs, 0, e, '/');
        proof {
            lemma_last_index_of_bounds(s, '/');
        }
        let start = match slash {
            Some(k) => k + 1,
            None => 0,
        };
        proof {
            lemma_last_index_of_bounds(s, '/');
            assert(s.subrange(start as int, s.len() as int) == cs@.subrange(start as int, e as int));
        }
        let len = e - start;
        let is_dot = len == 1 && cs[start] == '.';
        let is_dot_dot = len == 2 && cs[start] == '.' && cs[start + 1] == '.';
        proof {
            let seg = cs@.subrange(start as int, e as int);
            if len >= 1 {
                assert(seg[0] == cs@[start as int]);
            }
            if len >= 2 {
                assert(seg[1] == cs@[start + 1]);
            }
            if len == 1 {
                assert(is_dot == (seg =~= seq!['.']));
            } else {
                assert(seg.len() != 1);
                assert(!is_dot && seg != seq!['.']);
            }
            if len == 2 {
                assert(is_dot_dot == (seg =~= seq!['.', '.']));
            } else {
                assert(seg.len() != 2);
                assert(!is_dot_dot && seg != seq!['.', '.']);
            }
        }
        if len == 0 || is_dot {
            match slash {
                None => {
                    return None;
                },
                Some(k) => {
                    proof {
                        assert(s.take(k as int) == cs@.subrange(0, k as int));
                    }
                    e = k;
                },
            }
        } else if is_dot_dot {
            return None;
        } else {
            return Some((start, e));
        }
    }
}

/// The file name of page `n` at `address` (`Page::fname`).
pub fn page_fname(address: &str, n: usize) -> (r: String)
    ensures
        r@ == page_file_name(address@, n as nat),
{
    let cs = chars_of(address);
    let mut name = decimal_string(n as u64);
    match file_name_bounds(cs.as_slice()) {
        None => {},
        Some((a, b)) => {
            let ghost fname = cs@.subrange(a as int, b as int);
            match last_index_in(cs.as_slice(), a, b, '.') {
                None => {},
                Some(p) => {
                    proof {
                        lemma_last_index_of_bounds(fname, '.');
                    }
                    if p > 0 {
                        let ext_start = a + p + 1;
                        let ghost ext = cs@.subrange(ext_start as int, b as int);
                        proof {
                            lemma_last_index_of_bounds(fname, '.');
                            assert(fname.subrange(p + 1, fname.len() as int) == ext);
                        }
                        let cut = match first_index_in(cs.as_slice(), ext_start, b, '?') {
                            Some(q) => {
                                proof {
                                    lemma_first_index_of(ext, '?');
                                    assert(ext.take(q as int) == cs@.subrange(
                                        ext_start as int,
                                        ext_start + q,
                                    ));
                                }
                                ext_start + q
                            },
                            None => b,
                        };
                        push_char(&mut name, '.');
                        push_chars(&mut name, cs.as_slice(), ext_start, cut);
                        assert(name@ == decimal(n as nat) + seq!['.'] + without_query(ext));
                    }
                },
            }
        },
    }
    name
}

} // verus!
