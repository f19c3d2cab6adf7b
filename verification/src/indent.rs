use vstd::prelude::*;

verus! {

/// How many space characters the text begins with.
pub open spec fn leading_spaces(t: Seq<char>) -> nat
    decreases t.len(),
{
    if t.len() == 0 {
        0
    } else if t[0] == ' ' {
        1 + leading_spaces(t.drop_first())
    } else {
        0
    }
}

/// Distance to the first newline, or the whole length when there is none.
pub open spec fn nl_dist(t: Seq<char>) -> nat
    decreases t.len(),
{
    if t.len() == 0 {
        0
    } else if t[0] == '\n' {
        0
    } else {
        1 + nl_dist(t.drop_first())
    }
}

pub proof fn lemma_leading_spaces_le(t: Seq<char>)
    ensures
        leading_spaces(t) <= t.len(),
    decreases t.len(),
{
    if t.len() > 0 && t[0] == ' ' {
        lemma_leading_spaces_le(t.drop_first());
    }
}

pub proof fn lemma_nl_dist_le(t: Seq<char>)
    ensures
        nl_dist(t) <= t.len(),
        nl_dist(t) < t.len() ==> t[nl_dist(t) as int] == '\n',
    decreases t.len(),
{
    if t.len() > 0 && t[0] != '\n' {
        lemma_nl_dist_le(t.drop_first());
    }
}

pub open spec fn nat_min(a: nat, b: nat) -> nat {
    if a < b {
        a
    } else {
        b
    }
}

/// The de-indented text: at each line start, up to `k` leading spaces are
/// removed; `start` says whether the text begins at a line start.
pub open spec fn strip_text(t: Seq<char>, k: nat, start: bool) -> Seq<char>
    decreases t.len(),
    via strip_text_decreases
{
    if t.len() == 0 {
        Seq::empty()
    } else {
        let j = if start {
            nat_min(k, leading_spaces(t))
        } else {
            0
        };
        let rest = t.skip(j as int);
        let p = nl_dist(rest);
        if p == rest.len() {
            rest
        } else {
            rest.subrange(0, p as int + 1) + strip_text(rest.skip(p as int + 1), k, true)
        }
    }
}

#[via_fn]
proof fn strip_text_decreases(t: Seq<char>, k: nat, start: bool) {
    if t.len() > 0 {
        lemma_leading_spaces_le(t);
        let j = if start {
            nat_min(k, leading_spaces(t))
        } else {
            0
        };
        lemma_nl_dist_le(t.skip(j as int));
    }
}

pub open spec fn opt_min(a: Option<nat>, b: Option<nat>) -> Option<nat> {
    match (a, b) {
        (Option::None, _) => b,
        (_, Option::None) => a,
        (Option::Some(x), Option::Some(y)) => Option::Some(nat_min(x, y)),
    }
}

/// The least indentation of the lines of `t` that hold a character other
/// than a space; a line counts only when it begins at a line start. `None`
/// when no line counts.
pub open spec fn min_ind(t: Seq<char>, start: bool) -> Option<nat>
    decreases t.len(),
    via min_ind_decreases
{
    if t.len() == 0 {
        Option::None
    } else if start {
        let sp = leading_spaces(t);
        if sp == t.len() {
            Option::None
        } else if t[sp as int] == '\n' {
            min_ind(t.skip(sp as int + 1), true)
        } else {
            let p = nl_dist(t);
            if p == t.len() {
                Option::Some(sp)
            } else {
                opt_min(Option::Some(sp), min_ind(t.skip(p as int + 1), true))
            }
        }
    } else {
        let p = nl_dist(t);
        if p == t.len() {
            Option::None
        } else {
            min_ind(t.skip(p as int + 1), true)
        }
    }
}

#[via_fn]
proof fn min_ind_decreases(t: Seq<char>, start: bool) {
    if t.len() > 0 {
        lemma_leading_spaces_le(t);
        lemma_nl_dist_le(t);
    }
}

/// Counts the spaces of `t` from position `i` on.
pub fn scan_spaces(t: &str, len: usize, i: usize) -> (r: usize)
    requires
        len as nat == t@.len(),
        i <= len,
    ensures
        r as nat == leading_spaces(t@.skip(i as int)),
        i + r <= len,
    decreases len - i,
{
    proof {
        lemma_leading_spaces_le(t@.skip(i as int));
    }
    if i < len {
        let c = t.get_char(i);
        if c == ' ' {
            let rest = scan_spaces(t, len, i + 1);
            proof {
                assert(t@.skip(i as int).drop_first() =~= t@.skip(i as int + 1));
            }
            1 + rest
        } else {
            0
        }
    } else {
        0
    }
}

/// The position of the first newline at or after `i`, or `len`.
pub fn scan_nl(t: &str, len: usize, i: usize) -> (r: usize)
    requires
        len as nat == t@.len(),
        i <= len,
    ensures
        r as nat == i + nl_dist(t@.skip(i as int)),
        i <= r <= len,
    decreases len - i,
{
    proof {
        lemma_nl_dist_le(t@.skip(i as int));
    }
    if i < len {
        let c = t.get_char(i);
        if c == '\n' {
            i
        } else {
            proof {
                assert(t@.skip(i as int).drop_first() =~= t@.skip(i as int + 1));
            }
            scan_nl(t, len, i + 1)
        }
    } else {
        i
    }
}

/// Appends the de-indented tail of `t` from position `i` on to `buf`.
pub fn emit_stripped(t: &str, len: usize, i: usize, k: usize, start: bool, buf: &mut String)
    requires
        len as nat == t@.len(),
        i <= len,
    ensures
        final(buf)@ == old(buf)@ + strip_text(t@.skip(i as int), k as nat, start),
    decreases len - i,
{
    if i == len {
        proof {
            assert(buf@ =~= old(buf)@ + strip_text(t@.skip(i as int), k as nat, start));
        }
        return ;
    }
    let sp = if start {
        let s = scan_spaces(t, len, i);
        if k < s {
            k
        } else {
            s
        }
    } else {
        0
    };
    let p = scan_nl(t, len, i + sp);
    proof {
        assert(t@.skip(i as int).skip(sp as int) =~= t@.skip(i as int + sp as int));
    }
    if p == len {
        let piece = t.substring_char(i + sp, len);
        buf.append(piece);
        proof {
            assert(t@.subrange(i as int + sp as int, len as int) =~= t@.skip(i as int + sp as int));
            assert(buf@ =~= old(buf)@ + strip_text(t@.skip(i as int), k as nat, start));
        }
    } else {
        proof {
            lemma_nl_dist_le(t@.skip(i as int + sp as int));
        }
        let piece = t.substring_char(i + sp, p + 1);
        buf.append(piece);
        emit_stripped(t, len, p + 1, k, true, buf);
        proof {
            assert(t@.subrange(i as int + sp as int, p as int + 1) =~= t@.skip(i as int + sp as int).subrange(
                0,
                nl_dist(t@.skip(i as int + sp as int)) as int + 1,
            ));
            assert(t@.skip(i as int + sp as int).skip(nl_dist(t@.skip(i as int + sp as int)) as int + 1)
                =~= t@.skip(p as int + 1));
            assert(buf@ =~= old(buf)@ + strip_text(t@.skip(i as int), k as nat, start));
        }
    }
}

/// The least counted indentation of `t` from position `i` on, as an option.
pub fn scan_min_ind(t: &str, len: usize, i: usize, start: bool) -> (r: Option<usize>)
    requires
        len as nat == t@.len(),
        i <= len,
    ensures
        match r {
            Option::Some(v) => min_ind(t@.skip(i as int), start) == Option::Some(v as nat),
            Option::None => min_ind(t@.skip(i as int), start) is None,
        },
    decreases len - i,
{
    if i == len {
        return Option::None;
    }
    if start {
        let sp = scan_spaces(t, len, i);
        if i + sp == len {
            proof {
                assert(t@.skip(i as int).len() == leading_spaces(t@.skip(i as int)));
            }
            return Option::None;
        }
        let c = t.get_char(i + sp);
        proof {
            assert(t@.skip(i as int)[sp as int] == t@[i as int + sp as int]);
        }
        if c == '\n' {
            proof {
                assert(t@.skip(i as int).skip(sp as int + 1) =~= t@.skip(i as int + sp as int + 1));
            }
            return scan_min_ind(t, len, i + sp + 1, true);
        }
        let p = scan_nl(t, len, i);
        proof {
            lemma_nl_dist_le(t@.skip(i as int));
        }
        if p == len {
            return Option::Some(sp);
        }
        proof {
            assert(t@.skip(i as int).skip(nl_dist(t@.skip(i as int)) as int + 1) =~= t@.skip(p as int + 1));
        }
        let rest = scan_min_ind(t, len, p + 1, true);
        match rest {
            Option::None => Option::Some(sp),
            Option::Some(v) => if sp < v {
                Option::Some(sp)
            } else {
                Option::Some(v)
            },
        }
    } else {
        let p = scan_nl(t, len, i);
        proof {
            lemma_nl_dist_le(t@.skip(i as int));
        }
        if p == len {
            return Option::None;
        }
        proof {
            assert(t@.skip(i as int).skip(nl_dist(t@.skip(i as int)) as int + 1) =~= t@.skip(p as int + 1));
        }
        scan_min_ind(t, len, p + 1, true)
    }
}

} // verus!
