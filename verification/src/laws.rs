use vstd::prelude::*;
use crate::ast::{Attr, BinOpKind, Binding, Expr, Flaw, LitKind};
use crate::code::{
    bin_op_text, compile_bindings, compile_binding, compile_elems, compile_expr, compile_inherits,
    ref_text, rt_text, thunk_text,
};
use crate::scope::{ScopeItem, binds_name, lex_bound, rec_name_of, rec_names};

verus! {

/// Compilation is a function of the input expression alone: two results of
/// compiling the same expression are the same text, byte for byte.
pub proof fn lemma_codegen_deterministic(e: Expr, c1: Seq<char>, c2: Seq<char>)
    requires
        compile_expr(e, Seq::empty()) == Result::<Seq<char>, Flaw>::Ok(c1),
        compile_expr(e, Seq::empty()) == Result::<Seq<char>, Flaw>::Ok(c2),
    ensures
        c1 == c2,
{
}

/// An integer literal compiles to its own token text followed by the
/// arbitrary-precision marker, so a value of any size is preserved exactly.
pub proof fn lemma_int_literal_exact(text: String, env: Seq<ScopeItem>)
    ensures
        compile_expr(Expr::Literal { kind: LitKind::Int, text }, env)
            == Result::<Seq<char>, Flaw>::Ok(text@ + "n"@),
{
}

/// A binary operator's emitted call passes the compiled left operand before
/// the right one, whatever the operator.
pub proof fn lemma_binary_op_operand_order(
    op: BinOpKind,
    lhs: Box<Expr>,
    rhs: Box<Expr>,
    env: Seq<ScopeItem>,
    lc: Seq<char>,
    rc: Seq<char>,
)
    requires
        compile_expr(*lhs, env) == Result::<Seq<char>, Flaw>::Ok(lc),
        compile_expr(*rhs, env) == Result::<Seq<char>, Flaw>::Ok(rc),
    ensures
        compile_expr(Expr::BinaryOp { op, lhs, rhs }, env) == Result::<Seq<char>, Flaw>::Ok(
            rt_text(bin_op_text(op)) + "("@ + lc + ","@ + rc + ")"@,
        ),
{
}

/// A name that is bound lexically compiles to a force of that binding and
/// never to a `with`-scope lookup: the lexical binding wins over the
/// fallback scope.
pub proof fn lemma_lexical_binding_wins(n: Seq<char>, env: Seq<ScopeItem>)
    requires
        lex_bound(env, n),
    ensures
        ref_text(n, env) == rt_text("force"@) + "("@ + n + ")"@,
{
}

/// Every element of a list contributes its code wrapped in the runtime's
/// memoizing thunk constructor, so an unused element is never evaluated and
/// a used one is evaluated at most once.
pub proof fn lemma_list_element_deferred(s: Seq<Expr>, env: Seq<ScopeItem>, rest: Seq<char>, c: Seq<char>)
    requires
        s.len() > 0,
        compile_elems(s.drop_last(), env) == Result::<Seq<char>, Flaw>::Ok(rest),
        compile_expr(s.last(), env) == Result::<Seq<char>, Flaw>::Ok(c),
    ensures
        compile_elems(s, env) == Result::<Seq<char>, Flaw>::Ok(rest + thunk_text(c) + ","@),
{
}

/// In an attribute selection with a default, the default's code stands only
/// inside the deferred-computation constructor, so it is evaluated only when
/// the selection misses.
pub proof fn lemma_select_default_deferred(
    set: Box<Expr>,
    path: Vec<Attr>,
    d: Box<Expr>,
    env: Seq<ScopeItem>,
    sc: Seq<char>,
    ks: Seq<char>,
    dc: Seq<char>,
)
    requires
        compile_expr(*set, env) == Result::<Seq<char>, Flaw>::Ok(sc),
        crate::code::compile_attrs(path@, env) == Result::<Seq<char>, Flaw>::Ok(ks),
        compile_expr(*d, env) == Result::<Seq<char>, Flaw>::Ok(dc),
    ensures
        compile_expr(Expr::Select { set, path, default: Option::Some(d) }, env)
            == Result::<Seq<char>, Flaw>::Ok(
            rt_text("select"@) + "("@ + sc + ",["@ + ks + "],"@ + thunk_text(dc) + ")"@,
        ),
{
}

/// The legacy `let` attribute-set form aborts compilation with its own
/// error, whatever its bindings; no output is produced.
pub proof fn lemma_let_attrset_rejected(is_rec: bool, bindings: Vec<Binding>, env: Seq<ScopeItem>)
    ensures
        compile_expr(Expr::AttrSet { is_let: true, is_rec, bindings }, env)
            == Result::<Seq<char>, Flaw>::Err(Flaw::LetAttrSet),
{
}

/// A compiled `inherit` clause holds static names only: when its compilation
/// succeeds, every attribute in it was a static name. Contrapositively, a
/// dynamic or string attribute inside `inherit` aborts compilation.
pub proof fn lemma_inherits_ok_all_names(
    attrs: Seq<Attr>,
    src: Option<Seq<char>>,
    outer: Seq<ScopeItem>,
    j: int,
)
    requires
        compile_inherits(attrs, src, outer) is Ok,
        0 <= j < attrs.len(),
    ensures
        attrs[j] is Name,
    decreases attrs.len(),
{
    if j == attrs.len() - 1 {
        assert(attrs.last() == attrs[j]);
    } else {
        assert(attrs.drop_last()[j] == attrs[j]);
        lemma_inherits_ok_all_names(attrs.drop_last(), src, outer, j);
    }
}

/// When the statement list of an attribute set compiles, so does each of its
/// bindings; so one flawed binding aborts the whole set.
pub proof fn lemma_bindings_ok_each(
    s: Seq<Binding>,
    outer: Seq<ScopeItem>,
    vals: Seq<ScopeItem>,
    is_rec: bool,
    i: int,
)
    requires
        compile_bindings(s, outer, vals, is_rec) is Ok,
        0 <= i < s.len(),
    ensures
        compile_binding(s[i], outer, vals, is_rec) is Ok,
    decreases s.len(),
{
    if i == s.len() - 1 {
        assert(s.last() == s[i]);
    } else {
        assert(s.drop_last()[i] == s[i]);
        lemma_bindings_ok_each(s.drop_last(), outer, vals, is_rec, i);
    }
}

/// A dynamic or string attribute inside an `inherit` clause makes the whole
/// attribute set's bindings fail to compile: such a construct aborts rather
/// than emit anything.
pub proof fn lemma_bad_inherit_aborts(
    s: Seq<Binding>,
    outer: Seq<ScopeItem>,
    vals: Seq<ScopeItem>,
    is_rec: bool,
    i: int,
    j: int,
)
    requires
        0 <= i < s.len(),
        s[i] is Inherit,
        0 <= j < s[i]->Inherit_attrs@.len(),
        !(s[i]->Inherit_attrs@[j] is Name),
    ensures
        !(compile_bindings(s, outer, vals, is_rec) is Ok),
{
    if compile_bindings(s, outer, vals, is_rec) is Ok {
        lemma_bindings_ok_each(s, outer, vals, is_rec, i);
        match s[i] {
            Binding::Inherit { from, attrs } => {
                match from {
                    Option::None => {
                        lemma_inherits_ok_all_names(attrs@, Option::None, outer, j);
                    },
                    Option::Some(src) => {
                        match compile_expr(*src, vals) {
                            Result::Ok(c) => {
                                lemma_inherits_ok_all_names(attrs@, Option::Some(c), outer, j);
                            },
                            Result::Err(_) => {},
                        }
                    },
                }
            },
            _ => {},
        }
    }
}

/// In a recursive attribute set, every name bound by a single static-name
/// binding is lexically visible in the scope its sibling values are compiled
/// under, so forward and self references resolve to the set's own fields.
pub proof fn lemma_rec_name_visible(bs: Seq<Binding>, env: Seq<ScopeItem>, i: int, n: String)
    requires
        0 <= i < bs.len(),
        bs[i] matches Binding::AttrpathValue { path, value }
            && path@ == seq![Attr::Name(n)],
    ensures
        lex_bound(env + rec_names(bs), n@),
    decreases bs.len(),
{
    if i == bs.len() - 1 {
        assert(rec_name_of(bs.last()) == seq![ScopeItem::Name(n)]);
        let all = env + rec_names(bs);
        let k = env.len() + rec_names(bs.drop_last()).len();
        assert(all[k as int] == ScopeItem::Name(n));
        assert(binds_name(all[k as int], n@));
    } else {
        assert(bs.drop_last()[i] == bs[i]);
        lemma_rec_name_visible(bs.drop_last(), env, i, n);
        let prev = env + rec_names(bs.drop_last());
        let all = env + rec_names(bs);
        let k = choose|k: int| 0 <= k < prev.len() && binds_name(#[trigger] prev[k], n@);
        assert(all[k] == prev[k]);
        assert(binds_name(all[k], n@));
    }
}

} // verus!
