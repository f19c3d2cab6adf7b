use vstd::prelude::*;
use crate::ast::{Attr, Binding};

verus! {

/// One link of the lexical scope chain carried alongside each node during
/// emission: either a name that is statically bound at this point, or the
/// mark of an enclosing `with` scope.
pub enum ScopeItem {
    Name(String),
    WithMark,
}

/// Whether `item` binds exactly the name `n`.
pub open spec fn binds_name(item: ScopeItem, n: Seq<char>) -> bool {
    match item {
        ScopeItem::Name(m) => m@ == n,
        ScopeItem::WithMark => false,
    }
}

/// A name resolves lexically when some link of the scope chain binds it.
pub open spec fn lex_bound(env: Seq<ScopeItem>, n: Seq<char>) -> bool {
    exists|i: int| 0 <= i < env.len() && binds_name(#[trigger] env[i], n)
}

/// How many `with` scopes enclose the current point of emission.
pub open spec fn with_count(env: Seq<ScopeItem>) -> nat
    decreases env.len(),
{
    if env.len() == 0 {
        0
    } else {
        with_count(env.drop_last()) + (if env.last() is WithMark {
            1nat
        } else {
            0nat
        })
    }
}

/// Decimal digit characters.
pub open spec fn dec_digit(d: nat) -> char {
    if d == 0 {
        '0'
    } else if d == 1 {
        '1'
    } else if d == 2 {
        '2'
    } else if d == 3 {
        '3'
    } else if d == 4 {
        '4'
    } else if d == 5 {
        '5'
    } else if d == 6 {
        '6'
    } else if d == 7 {
        '7'
    } else if d == 8 {
        '8'
    } else {
        '9'
    }
}

/// The usual decimal rendering of `n`, most significant digit first.
pub open spec fn dec_text(n: nat) -> Seq<char>
    decreases n,
{
    if n < 10 {
        seq![dec_digit(n)]
    } else {
        dec_text(n / 10).push(dec_digit(n % 10))
    }
}

/// The names the emitted lookup tries for a reference that did not resolve
/// lexically: the variables of the `k` enclosing `with` scopes, innermost
/// first, each followed by a comma.
pub open spec fn with_refs_text(k: nat) -> Seq<char>
    decreases k,
{
    if k == 0 {
        Seq::empty()
    } else {
        "__12345_with_"@ + dec_text((k - 1) as nat) + ","@ + with_refs_text((k - 1) as nat)
    }
}

/// The names that a recursive attribute set aliases locally so that sibling
/// bindings can reference them: the static single-component binding names,
/// in binding order.
pub open spec fn rec_names(bs: Seq<Binding>) -> Seq<ScopeItem>
    decreases bs.len(),
{
    if bs.len() == 0 {
        Seq::empty()
    } else {
        rec_names(bs.drop_last()) + rec_name_of(bs.last())
    }
}

/// The alias contributed by one binding: its name when the binding assigns a
/// single static name, nothing otherwise.
pub open spec fn rec_name_of(b: Binding) -> Seq<ScopeItem> {
    match b {
        Binding::AttrpathValue { path, value } => if path@.len() == 1 {
            match path@[0] {
                Attr::Name(n) => seq![ScopeItem::Name(n)],
                _ => Seq::empty(),
            }
        } else {
            Seq::empty()
        },
        Binding::Inherit { .. } => Seq::empty(),
    }
}

/// Whether the name `name` is bound lexically in `scope`.
pub fn is_bound(scope: &Vec<ScopeItem>, name: &String) -> (r: bool)
    ensures
        r == lex_bound(scope@, name@),
{
    let mut i: usize = 0;
    while i < scope.len()
        invariant
            0 <= i <= scope.len(),
            forall|j: int| 0 <= j < i ==> !binds_name(#[trigger] scope@[j], name@),
        decreases scope.len() - i,
    {
        match &scope[i] {
            ScopeItem::Name(m) => {
                if m.eq(name) {
                    proof {
                        assert(binds_name(scope@[i as int], name@));
                    }
                    return true;
                }
            },
            ScopeItem::WithMark => {},
        }
        i = i + 1;
    }
    false
}

/// Counts the enclosing `with` scopes recorded in `scope`.
pub fn count_withs(scope: &Vec<ScopeItem>) -> (r: usize)
    ensures
        r as nat == with_count(scope@),
{
    let mut i: usize = 0;
    let mut c: usize = 0;
    while i < scope.len()
        invariant
            0 <= i <= scope.len(),
            c <= i,
            c as nat == with_count(scope@.subrange(0, i as int)),
        decreases scope.len() - i,
    {
        proof {
            assert(scope@.subrange(0, i as int + 1).drop_last() =~= scope@.subrange(0, i as int));
            assert(scope@.subrange(0, i as int + 1).last() == scope@[i as int]);
        }
        match &scope[i] {
            ScopeItem::WithMark => {
                c = c + 1;
            },
            ScopeItem::Name(_) => {},
        }
        i = i + 1;
    }
    proof {
        assert(scope@.subrange(0, scope@.len() as int) =~= scope@);
    }
    c
}

/// A fresh copy of a scope chain, for extension at a binder.
pub fn scope_clone(scope: &Vec<ScopeItem>) -> (r: Vec<ScopeItem>)
    ensures
        r@ == scope@,
{
    let mut out: Vec<ScopeItem> = Vec::new();
    let mut i: usize = 0;
    while i < scope.len()
        invariant
            0 <= i <= scope.len(),
            out@ == scope@.subrange(0, i as int),
        decreases scope.len() - i,
    {
        match &scope[i] {
            ScopeItem::Name(m) => {
                out.push(ScopeItem::Name(m.clone()));
            },
            ScopeItem::WithMark => {
                out.push(ScopeItem::WithMark);
            },
        }
        proof {
            assert(out@ =~= scope@.subrange(0, i as int + 1));
        }
        i = i + 1;
    }
    proof {
        assert(scope@.subrange(0, scope@.len() as int) =~= scope@);
    }
    out
}

/// Appends the recursive-binding aliases of `bs` to a scope chain.
pub fn push_rec_names(scope: &mut Vec<ScopeItem>, bs: &Vec<Binding>)
    ensures
        final(scope)@ == old(scope)@ + rec_names(bs@),
{
    let mut i: usize = 0;
    while i < bs.len()
        invariant
            0 <= i <= bs.len(),
            scope@ == old(scope)@ + rec_names(bs@.subrange(0, i as int)),
        decreases bs.len() - i,
    {
        proof {
            assert(bs@.subrange(0, i as int + 1).drop_last() =~= bs@.subrange(0, i as int));
            assert(bs@.subrange(0, i as int + 1).last() == bs@[i as int]);
        }
        match &bs[i] {
            Binding::AttrpathValue { path, value } => {
                if path.len() == 1 {
                    match &path[0] {
                        Attr::Name(n) => {
                            scope.push(ScopeItem::Name(n.clone()));
                        },
                        _ => {},
                    }
                }
            },
            Binding::Inherit { .. } => {},
        }
        proof {
            assert(scope@ =~= old(scope)@ + rec_names(bs@.subrange(0, i as int + 1)));
        }
        i = i + 1;
    }
    proof {
        assert(bs@.subrange(0, bs@.len() as int) =~= bs@);
    }
}

/// Appends the decimal rendering of `n` to `buf`.
pub fn emit_dec(n: usize, buf: &mut String)
    ensures
        final(buf)@ == old(buf)@ + dec_text(n as nat),
    decreases n,
{
    if n >= 10 {
        emit_dec(n / 10, buf);
    }
    let d = n % 10;
    if d == 0 {
        buf.append("0");
    } else if d == 1 {
        buf.append("1");
    } else if d == 2 {
        buf.append("2");
    } else if d == 3 {
        buf.append("3");
    } else if d == 4 {
        buf.append("4");
    } else if d == 5 {
        buf.append("5");
    } else if d == 6 {
        buf.append("6");
    } else if d == 7 {
        buf.append("7");
    } else if d == 8 {
        buf.append("8");
    } else {
        buf.append("9");
    }
    proof {
        reveal_strlit("0");
        reveal_strlit("1");
        reveal_strlit("2");
        reveal_strlit("3");
        reveal_strlit("4");
        reveal_strlit("5");
        reveal_strlit("6");
        reveal_strlit("7");
        reveal_strlit("8");
        reveal_strlit("9");
        if n < 10 {
            assert(buf@ =~= old(buf)@ + dec_text(n as nat));
        } else {
            assert(buf@ =~= old(buf)@ + dec_text(n as nat));
        }
    }
}

/// Appends the `with`-scope variable list for `k` enclosing scopes,
/// innermost first.
pub fn emit_with_refs(k: usize, buf: &mut String)
    ensures
        final(buf)@ == old(buf)@ + with_refs_text(k as nat),
    decreases k,
{
    if k > 0 {
        buf.append("__12345_with_");
        emit_dec(k - 1, buf);
        buf.append(",");
        emit_with_refs(k - 1, buf);
        proof {
            assert(buf@ =~= old(buf)@ + with_refs_text(k as nat));
        }
    }
}

} // verus!
