use vstd::prelude::*;
use crate::ast::{Attr, Binding, Expr, Flaw, LitKind, Param, PatField, StringPart};
use crate::code::{
    compile_attr, compile_attrs, compile_binding, compile_bindings, compile_elems, compile_expr,
    compile_formals, compile_inherits, compile_part, compile_parts, field_names_text, ind_of,
    min_ind_parts, pat_names, pattern_env,
};
use crate::indent::{emit_stripped, scan_min_ind};
use crate::scope::{ScopeItem, count_withs, emit_dec, emit_with_refs, is_bound, push_rec_names, scope_clone};

verus! {

/// How an emitter's result relates buffer and outcome to the compiled text
/// `res` of the node it was given: on success the buffer grew by exactly
/// that text; on a fatal input error the same error is handed back.
pub open spec fn emitted(
    res: Result<Seq<char>, Flaw>,
    old_buf: Seq<char>,
    new_buf: Seq<char>,
    r: Result<(), Flaw>,
) -> bool {
    match r {
        Result::Ok(_) => res is Ok && new_buf == old_buf + res->Ok_0,
        Result::Err(w) => res == Result::<Seq<char>, Flaw>::Err(w),
    }
}

/// Appends a double-quoted occurrence of `s`.
fn emit_quote(s: &str, buf: &mut String)
    ensures
        final(buf)@ == old(buf)@ + crate::code::quote_text(s@),
{
    buf.append("\"");
    buf.append(s);
    buf.append("\"");
    proof {
        assert(buf@ =~= old(buf)@ + crate::code::quote_text(s@));
    }
}

/// Appends the namespaced name of a runtime primitive.
fn emit_rt(method: &str, buf: &mut String)
    ensures
        final(buf)@ == old(buf)@ + crate::code::rt_text(method@),
{
    buf.append("__12345_runtime.");
    buf.append(method);
}

/// Opens a deferred computation; the caller appends the computed expression
/// and the closing parenthesis.
fn emit_thunk_open(buf: &mut String)
    ensures
        final(buf)@ == old(buf)@ + crate::code::rt_text("newThunk"@) + "(() => "@,
{
    buf.append("__12345_runtime.");
    buf.append("newThunk");
    buf.append("(() => ");
    proof {
        assert(buf@ =~= old(buf)@ + crate::code::rt_text("newThunk"@) + "(() => "@);
    }
}

proof fn lemma_elems_err(s: Seq<Expr>, env: Seq<ScopeItem>, w: Flaw, i: int, j: int)
    requires
        0 <= i < j <= s.len(),
        compile_elems(s.subrange(0, i), env) is Ok,
        compile_expr(s[i], env) == Result::<Seq<char>, Flaw>::Err(w),
    ensures
        compile_elems(s.subrange(0, j), env) == Result::<Seq<char>, Flaw>::Err(w),
    decreases j,
{
    if j == i + 1 {
        assert(s.subrange(0, j).drop_last() =~= s.subrange(0, i));
        assert(s.subrange(0, j).last() == s[i]);
    } else {
        lemma_elems_err(s, env, w, i, j - 1);
        assert(s.subrange(0, j).drop_last() =~= s.subrange(0, j - 1));
    }
}

proof fn lemma_attrs_err(s: Seq<Attr>, env: Seq<ScopeItem>, w: Flaw, i: int, j: int)
    requires
        0 <= i < j <= s.len(),
        compile_attrs(s.subrange(0, i), env) is Ok,
        compile_attr(s[i], env) == Result::<Seq<char>, Flaw>::Err(w),
    ensures
        compile_attrs(s.subrange(0, j), env) == Result::<Seq<char>, Flaw>::Err(w),
    decreases j,
{
    if j == i + 1 {
        assert(s.subrange(0, j).drop_last() =~= s.subrange(0, i));
        assert(s.subrange(0, j).last() == s[i]);
    } else {
        lemma_attrs_err(s, env, w, i, j - 1);
        assert(s.subrange(0, j).drop_last() =~= s.subrange(0, j - 1));
    }
}

proof fn lemma_parts_err(
    s: Seq<StringPart>,
    env: Seq<ScopeItem>,
    strip: Option<nat>,
    first: bool,
    w: Flaw,
    i: int,
    j: int,
)
    requires
        0 <= i < j <= s.len(),
        compile_parts(s.subrange(0, i), env, strip, first) is Ok,
        compile_part(s[i], env, strip, first && i == 0) == Result::<Seq<char>, Flaw>::Err(w),
    ensures
        compile_parts(s.subrange(0, j), env, strip, first) == Result::<Seq<char>, Flaw>::Err(w),
    decreases j,
{
    if j == i + 1 {
        assert(s.subrange(0, j).drop_last() =~= s.subrange(0, i));
        assert(s.subrange(0, j).last() == s[i]);
    } else {
        lemma_parts_err(s, env, strip, first, w, i, j - 1);
        assert(s.subrange(0, j).drop_last() =~= s.subrange(0, j - 1));
    }
}

proof fn lemma_bindings_err(
    s: Seq<Binding>,
    outer: Seq<ScopeItem>,
    vals: Seq<ScopeItem>,
    is_rec: bool,
    w: Flaw,
    i: int,
    j: int,
)
    requires
        0 <= i < j <= s.len(),
        compile_bindings(s.subrange(0, i), outer, vals, is_rec) is Ok,
        compile_binding(s[i], outer, vals, is_rec) == Result::<Seq<char>, Flaw>::Err(w),
    ensures
        compile_bindings(s.subrange(0, j), outer, vals, is_rec) == Result::<Seq<char>, Flaw>::Err(
            w,
        ),
    decreases j,
{
    if j == i + 1 {
        assert(s.subrange(0, j).drop_last() =~= s.subrange(0, i));
        assert(s.subrange(0, j).last() == s[i]);
    } else {
        lemma_bindings_err(s, outer, vals, is_rec, w, i, j - 1);
        assert(s.subrange(0, j).drop_last() =~= s.subrange(0, j - 1));
    }
}

proof fn lemma_inherits_err(
    s: Seq<Attr>,
    src: Option<Seq<char>>,
    outer: Seq<ScopeItem>,
    i: int,
    j: int,
)
    requires
        0 <= i < j <= s.len(),
        compile_inherits(s.subrange(0, i), src, outer) is Ok,
        !(s[i] is Name),
    ensures
        compile_inherits(s.subrange(0, j), src, outer) == Result::<Seq<char>, Flaw>::Err(
            Flaw::InheritAttr,
        ),
    decreases j,
{
    if j == i + 1 {
        assert(s.subrange(0, j).drop_last() =~= s.subrange(0, i));
        assert(s.subrange(0, j).last() == s[i]);
    } else {
        lemma_inherits_err(s, src, outer, i, j - 1);
        assert(s.subrange(0, j).drop_last() =~= s.subrange(0, j - 1));
    }
}

proof fn lemma_formals_err(s: Seq<PatField>, inner: Seq<ScopeItem>, w: Flaw, i: int, j: int)
    requires
        0 <= i < j <= s.len(),
        compile_formals(s.subrange(0, i), inner) is Ok,
        s[i].default is Some,
        compile_expr(*s[i].default->0, inner) == Result::<Seq<char>, Flaw>::Err(w),
    ensures
        compile_formals(s.subrange(0, j), inner) == Result::<Seq<char>, Flaw>::Err(w),
    decreases j,
{
    if j == i + 1 {
        assert(s.subrange(0, j).drop_last() =~= s.subrange(0, i));
        assert(s.subrange(0, j).last() == s[i]);
    } else {
        lemma_formals_err(s, inner, w, i, j - 1);
        assert(s.subrange(0, j).drop_last() =~= s.subrange(0, j - 1));
    }
}

/// Emits the deferred element list of a list literal.
#[verifier::rlimit(80)]
fn emit_elems(v: &Vec<Expr>, scope: &Vec<ScopeItem>, buf: &mut String) -> (r: Result<(), Flaw>)
    ensures
        emitted(compile_elems(v@, scope@), old(buf)@, final(buf)@, r),
    decreases v@, 3int,
{
    let mut i: usize = 0;
    while i < v.len()
        invariant
            0 <= i <= v.len(),
            compile_elems(v@.subrange(0, i as int), scope@) is Ok,
            buf@ == old(buf)@ + compile_elems(v@.subrange(0, i as int), scope@)->Ok_0,
        decreases v.len() - i,
    {
        proof {
            assert(decreases_to!(v@ => v@[i as int]));
            assert(v@.subrange(0, i as int + 1).drop_last() =~= v@.subrange(0, i as int));
            assert(v@.subrange(0, i as int + 1).last() == v@[i as int]);
        }
        emit_thunk_open(buf);
        match emit_expr(&v[i], scope, buf) {
            Result::Err(w) => {
                proof {
                    lemma_elems_err(v@, scope@, w, i as int, v@.len() as int);
                    assert(v@.subrange(0, v@.len() as int) =~= v@);
                }
                return Result::Err(w);
            },
            Result::Ok(_) => {},
        }
        buf.append(")");
        buf.append(",");
        proof {
            assert(buf@ =~= old(buf)@ + compile_elems(v@.subrange(0, i as int + 1), scope@)->Ok_0);
        }
        i = i + 1;
    }
    proof {
        assert(v@.subrange(0, v@.len() as int) =~= v@);
    }
    Result::Ok(())
}

/// Emits one attribute-path component in key position.
#[verifier::rlimit(100)]
#[verifier::spinoff_prover]
fn emit_attr(a: &Attr, scope: &Vec<ScopeItem>, buf: &mut String) -> (r: Result<(), Flaw>)
    ensures
        emitted(compile_attr(*a, scope@), old(buf)@, final(buf)@, r),
    decreases *a, 5int,
{
    match a {
        Attr::Name(n) => {
            emit_quote(n.as_str(), buf);
            Result::Ok(())
        },
        Attr::Str(parts) => {
            proof {
                assert(decreases_to!(*a => a->Str_0));
                assert(decreases_to!(*parts => parts@));
                assert(decreases_to!(*a => parts@));
            }
            emit_rt("interpolate", buf);
            buf.append("([");
            let r = emit_parts(parts, scope, Option::None, false, buf);
            match r {
                Result::Err(w) => Result::Err(w),
                Result::Ok(_) => {
                    buf.append("])");
                    proof {
                        assert(buf@ =~= old(buf)@ + compile_attr(*a, scope@)->Ok_0);
                    }
                    Result::Ok(())
                },
            }
        },
        Attr::Dynamic(e) => {
            proof {
                assert(decreases_to!(*a => a->Dynamic_0));
                assert(decreases_to!(*a => **e));
            }
            emit_expr(e, scope, buf)
        },
    }
}

/// Emits the comma-terminated attribute-path component list.
#[verifier::rlimit(80)]
fn emit_attrs(v: &Vec<Attr>, scope: &Vec<ScopeItem>, buf: &mut String) -> (r: Result<(), Flaw>)
    ensures
        emitted(compile_attrs(v@, scope@), old(buf)@, final(buf)@, r),
    decreases v@, 3int,
{
    let mut i: usize = 0;
    while i < v.len()
        invariant
            0 <= i <= v.len(),
            compile_attrs(v@.subrange(0, i as int), scope@) is Ok,
            buf@ == old(buf)@ + compile_attrs(v@.subrange(0, i as int), scope@)->Ok_0,
        decreases v.len() - i,
    {
        proof {
            assert(decreases_to!(v@ => v@[i as int]));
            assert(v@.subrange(0, i as int + 1).drop_last() =~= v@.subrange(0, i as int));
            assert(v@.subrange(0, i as int + 1).last() == v@[i as int]);
        }
        match emit_attr(&v[i], scope, buf) {
            Result::Err(w) => {
                proof {
                    lemma_attrs_err(v@, scope@, w, i as int, v@.len() as int);
                    assert(v@.subrange(0, v@.len() as int) =~= v@);
                }
                return Result::Err(w);
            },
            Result::Ok(_) => {},
        }
        buf.append(",");
        proof {
            assert(buf@ =~= old(buf)@ + compile_attrs(v@.subrange(0, i as int + 1), scope@)->Ok_0);
        }
        i = i + 1;
    }
    proof {
        assert(v@.subrange(0, v@.len() as int) =~= v@);
    }
    Result::Ok(())
}

/// Emits the comma-terminated segment list of a string literal; an indented
/// string hands in the indentation to shed.
#[verifier::rlimit(100)]
#[verifier::spinoff_prover]
fn emit_parts(
    v: &Vec<StringPart>,
    scope: &Vec<ScopeItem>,
    strip: Option<usize>,
    first: bool,
    buf: &mut String,
) -> (r: Result<(), Flaw>)
    ensures
        emitted(
            compile_parts(
                v@,
                scope@,
                match strip {
                    Option::Some(k) => Option::Some(k as nat),
                    Option::None => Option::None,
                },
                first,
            ),
            old(buf)@,
            final(buf)@,
            r,
        ),
    decreases v@, 3int,
{
    let ghost gstrip: Option<nat> = match strip {
        Option::Some(k) => Option::Some(k as nat),
        Option::None => Option::None,
    };
    let mut i: usize = 0;
    while i < v.len()
        invariant
            0 <= i <= v.len(),
            gstrip == (match strip {
                Option::Some(k) => Option::Some(k as nat),
                Option::None => Option::None::<nat>,
            }),
            compile_parts(v@.subrange(0, i as int), scope@, gstrip, first) is Ok,
            buf@ == old(buf)@ + compile_parts(v@.subrange(0, i as int), scope@, gstrip, first)->Ok_0,
        decreases v.len() - i,
    {
        proof {
            assert(decreases_to!(v@ => v@[i as int]));
            assert(v@.subrange(0, i as int + 1).drop_last() =~= v@.subrange(0, i as int));
            assert(v@.subrange(0, i as int + 1).last() == v@[i as int]);
        }
        let at_start = first && i == 0;
        match &v[i] {
            StringPart::Lit(t) => {
                match strip {
                    Option::None => {
                        emit_quote(t.as_str(), buf);
                    },
                    Option::Some(k) => {
                        let ghost b0 = buf@;
                        buf.append("\"");
                        let ts = t.as_str();
                        let len = ts.unicode_len();
                        emit_stripped(ts, len, 0, k, at_start, buf);
                        buf.append("\"");
                        proof {
                            assert(ts@.skip(0) =~= t@);
                            assert(crate::indent::strip_text(ts@.skip(0), k as nat, at_start)
                                == crate::indent::strip_text(t@, k as nat, at_start));
                            assert(buf@ =~= b0 + crate::code::quote_text(
                                crate::indent::strip_text(t@, k as nat, at_start),
                            ));
                            assert(compile_part(v@[i as int], scope@, gstrip, at_start)
                                == Result::<Seq<char>, Flaw>::Ok(
                                crate::code::quote_text(
                                    crate::indent::strip_text(t@, k as nat, at_start),
                                ),
                            ));
                        }
                    },
                }
            },
            StringPart::Interp(e) => {
                match emit_expr(e, scope, buf) {
                    Result::Err(w) => {
                        proof {
                            lemma_parts_err(
                                v@,
                                scope@,
                                gstrip,
                                first,
                                w,
                                i as int,
                                v@.len() as int,
                            );
                            assert(v@.subrange(0, v@.len() as int) =~= v@);
                        }
                        return Result::Err(w);
                    },
                    Result::Ok(_) => {},
                }
            },
        }
        buf.append(",");
        proof {
            assert(buf@ =~= old(buf)@ + compile_parts(
                v@.subrange(0, i as int + 1),
                scope@,
                gstrip,
                first,
            )->Ok_0);
        }
        i = i + 1;
    }
    proof {
        assert(v@.subrange(0, v@.len() as int) =~= v@);
    }
    Result::Ok(())
}

/// The indentation an indented string literal sheds, computed over its
/// segments.
fn parts_ind(v: &Vec<StringPart>) -> (r: usize)
    ensures
        r as nat == ind_of(v@),
{
    let mut cur: Option<usize> = Option::None;
    let mut i: usize = 0;
    while i < v.len()
        invariant
            0 <= i <= v.len(),
            match cur {
                Option::Some(k) => min_ind_parts(v@.subrange(0, i as int), true) == Option::Some(
                    k as nat,
                ),
                Option::None => min_ind_parts(v@.subrange(0, i as int), true) is None,
            },
        decreases v.len() - i,
    {
        proof {
            assert(v@.subrange(0, i as int + 1).drop_last() =~= v@.subrange(0, i as int));
            assert(v@.subrange(0, i as int + 1).last() == v@[i as int]);
        }
        let this: Option<usize> = match &v[i] {
            StringPart::Lit(t) => {
                let ts = t.as_str();
                let len = ts.unicode_len();
                let m = scan_min_ind(ts, len, 0, i == 0);
                proof {
                    assert(ts@.skip(0) =~= t@);
                }
                m
            },
            StringPart::Interp(_) => Option::None,
        };
        cur = match (cur, this) {
            (Option::None, b) => b,
            (a, Option::None) => a,
            (Option::Some(x), Option::Some(y)) => if x < y {
                Option::Some(x)
            } else {
                Option::Some(y)
            },
        };
        i = i + 1;
    }
    proof {
        assert(v@.subrange(0, v@.len() as int) =~= v@);
    }
    match cur {
        Option::Some(k) => k,
        Option::None => 0,
    }
}

/// Emits the assignments of an `inherit` clause; `src` holds the already
/// compiled source expression when one was given.
#[verifier::rlimit(100)]
#[verifier::spinoff_prover]
fn emit_inherits(
    attrs: &Vec<Attr>,
    src: Option<&String>,
    outer: &Vec<ScopeItem>,
    buf: &mut String,
) -> (r: Result<(), Flaw>)
    ensures
        emitted(
            compile_inherits(
                attrs@,
                match src {
                    Option::Some(s) => Option::Some(s@),
                    Option::None => Option::None,
                },
                outer@,
            ),
            old(buf)@,
            final(buf)@,
            r,
        ),
    decreases attrs@, 3int,
{
    let ghost gsrc: Option<Seq<char>> = match src {
        Option::Some(s) => Option::Some(s@),
        Option::None => Option::None,
    };
    let mut i: usize = 0;
    while i < attrs.len()
        invariant
            0 <= i <= attrs.len(),
            gsrc == (match src {
                Option::Some(s) => Option::Some(s@),
                Option::None => Option::None::<Seq<char>>,
            }),
            compile_inherits(attrs@.subrange(0, i as int), gsrc, outer@) is Ok,
            buf@ == old(buf)@ + compile_inherits(attrs@.subrange(0, i as int), gsrc, outer@)->Ok_0,
        decreases attrs.len() - i,
    {
        proof {
            assert(attrs@.subrange(0, i as int + 1).drop_last() =~= attrs@.subrange(0, i as int));
            assert(attrs@.subrange(0, i as int + 1).last() == attrs@[i as int]);
        }
        match &attrs[i] {
            Attr::Name(n) => {
                buf.append("self.");
                buf.append(n.as_str());
                buf.append(" = ");
                emit_thunk_open(buf);
                match src {
                    Option::None => {
                        emit_ref_text(n, outer, buf);
                    },
                    Option::Some(s) => {
                        emit_rt("select", buf);
                        buf.append("(");
                        buf.append(s.as_str());
                        buf.append(",[");
                        emit_quote(n.as_str(), buf);
                        buf.append(",],null)");
                    },
                }
                buf.append(")");
                buf.append(";");
                proof {
                    assert(buf@ =~= old(buf)@ + compile_inherits(
                        attrs@.subrange(0, i as int + 1),
                        gsrc,
                        outer@,
                    )->Ok_0);
                }
            },
            _ => {
                proof {
                    lemma_inherits_err(attrs@, gsrc, outer@, i as int, attrs@.len() as int);
                    assert(attrs@.subrange(0, attrs@.len() as int) =~= attrs@);
                }
                return Result::Err(Flaw::InheritAttr);
            },
        }
        i = i + 1;
    }
    proof {
        assert(attrs@.subrange(0, attrs@.len() as int) =~= attrs@);
    }
    Result::Ok(())
}

/// Emits what a name reference compiles to under the given scope chain.
fn emit_ref_text(name: &String, scope: &Vec<ScopeItem>, buf: &mut String)
    ensures
        final(buf)@ == old(buf)@ + crate::code::ref_text(name@, scope@),
{
    if is_bound(scope, name) {
        emit_rt("force", buf);
        buf.append("(");
        buf.append(name.as_str());
        buf.append(")");
        proof {
            assert(buf@ =~= old(buf)@ + crate::code::ref_text(name@, scope@));
        }
    } else {
        emit_rt("lookup", buf);
        buf.append("(");
        emit_quote(name.as_str(), buf);
        buf.append(",[");
        let k = count_withs(scope);
        emit_with_refs(k, buf);
        buf.append("])");
        proof {
            assert(buf@ =~= old(buf)@ + crate::code::ref_text(name@, scope@));
        }
    }
}

/// Emits the statements of one binding of an attribute set.
#[verifier::rlimit(100)]
#[verifier::spinoff_prover]
fn emit_binding(
    b: &Binding,
    outer: &Vec<ScopeItem>,
    vals: &Vec<ScopeItem>,
    is_rec: bool,
    buf: &mut String,
) -> (r: Result<(), Flaw>)
    ensures
        emitted(compile_binding(*b, outer@, vals@, is_rec), old(buf)@, final(buf)@, r),
    decreases *b, 5int,
{
    match b {
        Binding::AttrpathValue { .. } => emit_binding_value(b, outer, vals, is_rec, buf),
        Binding::Inherit { from, attrs } => {
            proof {
                assert(decreases_to!(*b => b->Inherit_attrs));
                assert(decreases_to!(*attrs => attrs@));
                assert(decreases_to!(*b => attrs@));
            }
            match from {
                Option::None => emit_inherits(attrs, Option::None, outer, buf),
                Option::Some(src) => {
                    proof {
                        assert(decreases_to!(*b => b->Inherit_from));
                        assert(decreases_to!(*from => from->Some_0));
                        assert(decreases_to!(*b => **src));
                    }
                    let mut tmp = String::new();
                    let r = emit_expr(src, vals, &mut tmp);
                    match r {
                        Result::Err(w) => Result::Err(w),
                        Result::Ok(_) => {
                            let r2 = emit_inherits(attrs, Option::Some(&tmp), outer, buf);
                            proof {
                                assert(tmp@ =~= compile_expr(**src, vals@)->Ok_0);
                            }
                            r2
                        },
                    }
                },
            }
        },
    }
}

/// Emits a `path = value;` binding: the deferred value is assigned under its
/// key, with the recursive alias where the set is recursive and the key a
/// single static name.
#[verifier::rlimit(100)]
fn emit_binding_value(
    b: &Binding,
    outer: &Vec<ScopeItem>,
    vals: &Vec<ScopeItem>,
    is_rec: bool,
    buf: &mut String,
) -> (r: Result<(), Flaw>)
    requires
        *b is AttrpathValue,
    ensures
        emitted(compile_binding(*b, outer@, vals@, is_rec), old(buf)@, final(buf)@, r),
    decreases *b, 4int,
{
    match b {
        Binding::AttrpathValue { path, value } => {
            proof {
                assert(decreases_to!(*b => b->AttrpathValue_value));
                assert(decreases_to!(*b => **value));
                assert(decreases_to!(*b => b->AttrpathValue_path));
                assert(decreases_to!(*path => path@));
                assert(decreases_to!(*b => path@));
            }
            if path.len() == 0 {
                return Result::Err(Flaw::EmptyAttrPath);
            }
            if path.len() == 1 {
                emit_binding_single(b, outer, vals, is_rec, buf)
            } else {
                emit_binding_deep(b, outer, vals, is_rec, buf)
            }
        },
        _ => {
            proof {
                assert(false);
            }
            Result::Err(Flaw::LetAttrSet)
        },
    }
}

/// Emits a binding whose attribute path is one component: a static name is
/// assigned directly (and aliased when the set is recursive); a string or
/// dynamic key is computed and then assigned under the computed name.
#[verifier::rlimit(100)]
fn emit_binding_single(
    b: &Binding,
    outer: &Vec<ScopeItem>,
    vals: &Vec<ScopeItem>,
    is_rec: bool,
    buf: &mut String,
) -> (r: Result<(), Flaw>)
    requires
        *b is AttrpathValue,
        b->AttrpathValue_path@.len() == 1,
    ensures
        emitted(compile_binding(*b, outer@, vals@, is_rec), old(buf)@, final(buf)@, r),
    decreases *b, 3int,
{
    match b {
        Binding::AttrpathValue { path, value } => {
            match &path[0] {
                Attr::Name(_) => emit_binding_name(b, outer, vals, is_rec, buf),
                _ => emit_binding_key(b, outer, vals, is_rec, buf),
            }
        },
        _ => {
            proof {
                assert(false);
            }
            Result::Err(Flaw::LetAttrSet)
        },
    }
}

/// Emits a `name = value;` binding: the deferred value is assigned under the
/// static name, and a recursive set aliases it locally.
#[verifier::rlimit(100)]
#[verifier::spinoff_prover]
fn emit_binding_name(
    b: &Binding,
    outer: &Vec<ScopeItem>,
    vals: &Vec<ScopeItem>,
    is_rec: bool,
    buf: &mut String,
) -> (r: Result<(), Flaw>)
    requires
        *b is AttrpathValue,
        b->AttrpathValue_path@.len() == 1,
        b->AttrpathValue_path@[0] is Name,
    ensures
        emitted(compile_binding(*b, outer@, vals@, is_rec), old(buf)@, final(buf)@, r),
    decreases *b, 2int,
{
    match b {
        Binding::AttrpathValue { path, value } => {
            proof {
                assert(decreases_to!(*b => b->AttrpathValue_value));
                assert(decreases_to!(*b => **value));
            }
            match &path[0] {
                Attr::Name(n) => {
                    buf.append("self.");
                    buf.append(n.as_str());
                    buf.append(" = ");
                    emit_thunk_open(buf);
                    let r = emit_expr(value, vals, buf);
                    match r {
                        Result::Err(w) => {
                            return Result::Err(w);
                        },
                        Result::Ok(_) => {},
                    }
                    buf.append(")");
                    buf.append(";");
                    if is_rec {
                        buf.append("let ");
                        buf.append(n.as_str());
                        buf.append(" = self.");
                        buf.append(n.as_str());
                        buf.append(";");
                    }
                    proof {
                        let vc = compile_expr(**value, vals@)->Ok_0;
                        let expected = "self."@ + n@ + " = "@ + crate::code::thunk_text(vc) + ";"@
                            + (if is_rec {
                            "let "@ + n@ + " = self."@ + n@ + ";"@
                        } else {
                            Seq::empty()
                        });
                        assert(compile_binding(*b, outer@, vals@, is_rec)
                            == Result::<Seq<char>, Flaw>::Ok(expected));
                        assert(buf@ =~= old(buf)@ + expected);
                    }
                    Result::Ok(())
                },
                _ => {
                    proof {
                        assert(false);
                    }
                    Result::Err(Flaw::LetAttrSet)
                },
            }
        },
        _ => {
            proof {
                assert(false);
            }
            Result::Err(Flaw::LetAttrSet)
        },
    }
}

/// Emits a binding whose one-component key is a string or dynamic
/// expression: the key is computed when the binding is installed, while the
/// value stays deferred.
#[verifier::rlimit(100)]
#[verifier::spinoff_prover]
fn emit_binding_key(
    b: &Binding,
    outer: &Vec<ScopeItem>,
    vals: &Vec<ScopeItem>,
    is_rec: bool,
    buf: &mut String,
) -> (r: Result<(), Flaw>)
    requires
        *b is AttrpathValue,
        b->AttrpathValue_path@.len() == 1,
        !(b->AttrpathValue_path@[0] is Name),
    ensures
        emitted(compile_binding(*b, outer@, vals@, is_rec), old(buf)@, final(buf)@, r),
    decreases *b, 2int,
{
    match b {
        Binding::AttrpathValue { path, value } => {
            proof {
                assert(decreases_to!(*b => b->AttrpathValue_value));
                assert(decreases_to!(*b => **value));
                assert(decreases_to!(*b => b->AttrpathValue_path));
                assert(decreases_to!(*path => path@));
                assert(decreases_to!(*b => path@));
                assert(decreases_to!(path@ => path@[0]));
            }
            buf.append("self[");
            let r = emit_attr(&path[0], vals, buf);
            match r {
                Result::Err(w) => {
                    return Result::Err(w);
                },
                Result::Ok(_) => {},
            }
            buf.append("] = ");
            emit_thunk_open(buf);
            let r2 = emit_expr(value, vals, buf);
            match r2 {
                Result::Err(w) => {
                    return Result::Err(w);
                },
                Result::Ok(_) => {},
            }
            buf.append(")");
            buf.append(";");
            proof {
                let kc = compile_attr(path@[0], vals@)->Ok_0;
                let vc = compile_expr(**value, vals@)->Ok_0;
                let expected = "self["@ + kc + "] = "@ + crate::code::thunk_text(vc) + ";"@;
                assert(compile_binding(*b, outer@, vals@, is_rec)
                    == Result::<Seq<char>, Flaw>::Ok(expected));
                assert(buf@ =~= old(buf)@ + expected);
            }
            Result::Ok(())
        },
        _ => {
            proof {
                assert(false);
            }
            Result::Err(Flaw::LetAttrSet)
        },
    }
}

/// Emits a binding whose attribute path has several components: the runtime
/// installs the deferred value under the nested path, merging intermediate
/// sets.
#[verifier::rlimit(100)]
#[verifier::spinoff_prover]
fn emit_binding_deep(
    b: &Binding,
    outer: &Vec<ScopeItem>,
    vals: &Vec<ScopeItem>,
    is_rec: bool,
    buf: &mut String,
) -> (r: Result<(), Flaw>)
    requires
        *b is AttrpathValue,
        b->AttrpathValue_path@.len() >= 2,
    ensures
        emitted(compile_binding(*b, outer@, vals@, is_rec), old(buf)@, final(buf)@, r),
    decreases *b, 3int,
{
    match b {
        Binding::AttrpathValue { path, value } => {
            proof {
                assert(decreases_to!(*b => b->AttrpathValue_value));
                assert(decreases_to!(*b => **value));
                assert(decreases_to!(*b => b->AttrpathValue_path));
                assert(decreases_to!(*path => path@));
                assert(decreases_to!(*b => path@));
            }
            {
                emit_rt("assignPath", buf);
                buf.append("(self,[");
                let r = emit_attrs(path, vals, buf);
                match r {
                    Result::Err(w) => {
                        return Result::Err(w);
                    },
                    Result::Ok(_) => {},
                }
                buf.append("],");
                emit_thunk_open(buf);
                let r2 = emit_expr(value, vals, buf);
                match r2 {
                    Result::Err(w) => {
                        return Result::Err(w);
                    },
                    Result::Ok(_) => {},
                }
                buf.append(")");
                buf.append(");");
                proof {
                    let ks = compile_attrs(path@, vals@)->Ok_0;
                    let vc = compile_expr(**value, vals@)->Ok_0;
                    let expected = crate::code::rt_text("assignPath"@) + "(self,["@ + ks + "],"@
                        + crate::code::thunk_text(vc) + ");"@;
                    assert(compile_binding(*b, outer@, vals@, is_rec)
                        == Result::<Seq<char>, Flaw>::Ok(expected));
                    assert(buf@ =~= old(buf)@ + expected);
                }
                Result::Ok(())
            }
        },
        _ => {
            proof {
                assert(false);
            }
            Result::Err(Flaw::LetAttrSet)
        },
    }
}

/// Emits the statement list of an attribute set's bindings.
#[verifier::rlimit(100)]
#[verifier::spinoff_prover]
fn emit_bindings(
    bs: &Vec<Binding>,
    outer: &Vec<ScopeItem>,
    vals: &Vec<ScopeItem>,
    is_rec: bool,
    buf: &mut String,
) -> (r: Result<(), Flaw>)
    ensures
        emitted(compile_bindings(bs@, outer@, vals@, is_rec), old(buf)@, final(buf)@, r),
    decreases bs@, 3int,
{
    let mut i: usize = 0;
    while i < bs.len()
        invariant
            0 <= i <= bs.len(),
            compile_bindings(bs@.subrange(0, i as int), outer@, vals@, is_rec) is Ok,
            buf@ == old(buf)@ + compile_bindings(bs@.subrange(0, i as int), outer@, vals@, is_rec)->Ok_0,
        decreases bs.len() - i,
    {
        proof {
            assert(decreases_to!(bs@ => bs@[i as int]));
            assert(bs@.subrange(0, i as int + 1).drop_last() =~= bs@.subrange(0, i as int));
            assert(bs@.subrange(0, i as int + 1).last() == bs@[i as int]);
        }
        match emit_binding(&bs[i], outer, vals, is_rec, buf) {
            Result::Err(w) => {
                proof {
                    lemma_bindings_err(bs@, outer@, vals@, is_rec, w, i as int, bs@.len() as int);
                    assert(bs@.subrange(0, bs@.len() as int) =~= bs@);
                }
                return Result::Err(w);
            },
            Result::Ok(_) => {},
        }
        proof {
            assert(buf@ =~= old(buf)@ + compile_bindings(
                bs@.subrange(0, i as int + 1),
                outer@,
                vals@,
                is_rec,
            )->Ok_0);
        }
        i = i + 1;
    }
    proof {
        assert(bs@.subrange(0, bs@.len() as int) =~= bs@);
    }
    Result::Ok(())
}

/// Emits the local declarations of a pattern lambda's formals.
#[verifier::rlimit(100)]
#[verifier::spinoff_prover]
fn emit_formals(
    fs: &Vec<PatField>,
    inner: &Vec<ScopeItem>,
    buf: &mut String,
) -> (r: Result<(), Flaw>)
    ensures
        emitted(compile_formals(fs@, inner@), old(buf)@, final(buf)@, r),
    decreases fs@, 3int,
{
    let mut i: usize = 0;
    while i < fs.len()
        invariant
            0 <= i <= fs.len(),
            compile_formals(fs@.subrange(0, i as int), inner@) is Ok,
            buf@ == old(buf)@ + compile_formals(fs@.subrange(0, i as int), inner@)->Ok_0,
        decreases fs.len() - i,
    {
        proof {
            assert(decreases_to!(fs@ => fs@[i as int]));
            assert(fs@.subrange(0, i as int + 1).drop_last() =~= fs@.subrange(0, i as int));
            assert(fs@.subrange(0, i as int + 1).last() == fs@[i as int]);
        }
        let f = &fs[i];
        buf.append("const ");
        buf.append(f.name.as_str());
        buf.append(" = ");
        emit_rt("formal", buf);
        buf.append("(__12345_arg,");
        emit_quote(f.name.as_str(), buf);
        buf.append(",");
        match &f.default {
            Option::None => {
                buf.append("null");
            },
            Option::Some(d) => {
                proof {
                    assert(decreases_to!(fs@[i as int] => fs@[i as int].default));
                    assert(decreases_to!(fs@[i as int].default => fs@[i as int].default->0));
                    assert(decreases_to!(fs@ => **d));
                }
                emit_thunk_open(buf);
                match emit_expr(d, inner, buf) {
                    Result::Err(w) => {
                        proof {
                            lemma_formals_err(fs@, inner@, w, i as int, fs@.len() as int);
                            assert(fs@.subrange(0, fs@.len() as int) =~= fs@);
                        }
                        return Result::Err(w);
                    },
                    Result::Ok(_) => {},
                }
                buf.append(")");
            },
        }
        buf.append(");");
        proof {
            assert(buf@ =~= old(buf)@ + compile_formals(fs@.subrange(0, i as int + 1), inner@)->Ok_0);
        }
        i = i + 1;
    }
    proof {
        assert(fs@.subrange(0, fs@.len() as int) =~= fs@);
    }
    Result::Ok(())
}

/// Emits the quoted formal names handed to the runtime's pattern check.
fn emit_field_names(fs: &Vec<PatField>, buf: &mut String)
    ensures
        final(buf)@ == old(buf)@ + field_names_text(fs@),
{
    let mut i: usize = 0;
    while i < fs.len()
        invariant
            0 <= i <= fs.len(),
            buf@ == old(buf)@ + field_names_text(fs@.subrange(0, i as int)),
        decreases fs.len() - i,
    {
        proof {
            assert(fs@.subrange(0, i as int + 1).drop_last() =~= fs@.subrange(0, i as int));
            assert(fs@.subrange(0, i as int + 1).last() == fs@[i as int]);
        }
        emit_quote(fs[i].name.as_str(), buf);
        buf.append(",");
        proof {
            assert(buf@ =~= old(buf)@ + field_names_text(fs@.subrange(0, i as int + 1)));
        }
        i = i + 1;
    }
    proof {
        assert(fs@.subrange(0, fs@.len() as int) =~= fs@);
    }
}

/// The dispatcher: routes an expression node to its variant's emitter. The
/// match is total over the closed variant set, so an added variant is a
/// visible gap here rather than a silent miscompile.
fn emit_expr(e: &Expr, scope: &Vec<ScopeItem>, buf: &mut String) -> (r: Result<(), Flaw>)
    ensures
        emitted(compile_expr(*e, scope@), old(buf)@, final(buf)@, r),
    decreases *e, 9int,
{
    match e {
        Expr::Apply { .. } => emit_apply(e, scope, buf),
        Expr::Assert { .. } => emit_assertion(e, scope, buf),
        Expr::AttrSet { .. } => emit_attrset(e, scope, buf),
        Expr::BinaryOp { .. } => emit_binary_op(e, scope, buf),
        Expr::HasAttr { .. } => emit_has_attr(e, scope, buf),
        Expr::IfThenElse { .. } => emit_if_then_else(e, scope, buf),
        Expr::IndentStr { .. } => emit_indent_string(e, scope, buf),
        Expr::Lambda { .. } => emit_lambda(e, scope, buf),
        Expr::LetIn { .. } => emit_let_in(e, scope, buf),
        Expr::List { .. } => emit_list(e, scope, buf),
        Expr::Literal { .. } => emit_literal(e, buf),
        Expr::Paren { inner } => {
            proof {
                assert(decreases_to!(*e => e->Paren_inner));
                assert(decreases_to!(*e => **inner));
            }
            emit_expr(inner, scope, buf)
        },
        Expr::PathInterp { .. } => emit_path_interp(e, scope, buf),
        Expr::Ref { name } => {
            emit_ref_text(name, scope, buf);
            Result::Ok(())
        },
        Expr::Select { .. } => emit_select(e, scope, buf),
        Expr::Str { .. } => emit_string(e, scope, buf),
        Expr::UnaryOp { .. } => emit_unary_op(e, scope, buf),
        Expr::With { .. } => emit_with(e, scope, buf),
    }
}

/// A function application: the argument is deferred and memoized, so the
/// callee decides whether and when to force it.
fn emit_apply(e: &Expr, scope: &Vec<ScopeItem>, buf: &mut String) -> (r: Result<(), Flaw>)
    requires
        *e is Apply,
    ensures
        emitted(compile_expr(*e, scope@), old(buf)@, final(buf)@, r),
    decreases *e, 5int,
{
    match e {
        Expr::Apply { func, arg } => {
            proof {
                assert(decreases_to!(*e => e->Apply_func));
                assert(decreases_to!(*e => **func));
                assert(decreases_to!(*e => e->Apply_arg));
                assert(decreases_to!(*e => **arg));
            }
            let r = emit_expr(func, scope, buf);
            match r {
                Result::Err(w) => {
                    return Result::Err(w);
                },
                Result::Ok(_) => {},
            }
            buf.append(".call(null,");
            emit_thunk_open(buf);
            let r2 = emit_expr(arg, scope, buf);
            match r2 {
                Result::Err(w) => {
                    return Result::Err(w);
                },
                Result::Ok(_) => {},
            }
            buf.append(")");
            buf.append(")");
            proof {
                assert(buf@ =~= old(buf)@ + compile_expr(*e, scope@)->Ok_0);
            }
            Result::Ok(())
        },
        _ => {
            proof {
                assert(false);
            }
            Result::Err(Flaw::LetAttrSet)
        },
    }
}

/// An assertion: an immediately invoked closure checks the condition and
/// only then evaluates and returns the body.
fn emit_assertion(e: &Expr, scope: &Vec<ScopeItem>, buf: &mut String) -> (r: Result<(), Flaw>)
    requires
        *e is Assert,
    ensures
        emitted(compile_expr(*e, scope@), old(buf)@, final(buf)@, r),
    decreases *e, 5int,
{
    match e {
        Expr::Assert { cond, body } => {
            proof {
                assert(decreases_to!(*e => e->Assert_cond));
                assert(decreases_to!(*e => **cond));
                assert(decreases_to!(*e => e->Assert_body));
                assert(decreases_to!(*e => **body));
            }
            buf.append("(() => {assert(");
            let r = emit_expr(cond, scope, buf);
            match r {
                Result::Err(w) => {
                    return Result::Err(w);
                },
                Result::Ok(_) => {},
            }
            buf.append(");return ");
            let r2 = emit_expr(body, scope, buf);
            match r2 {
                Result::Err(w) => {
                    return Result::Err(w);
                },
                Result::Ok(_) => {},
            }
            buf.append("})()");
            proof {
                assert(buf@ =~= old(buf)@ + compile_expr(*e, scope@)->Ok_0);
            }
            Result::Ok(())
        },
        _ => {
            proof {
                assert(false);
            }
            Result::Err(Flaw::LetAttrSet)
        },
    }
}

/// A conditional: a native branch inside an immediately invoked closure, so
/// only the taken branch's code ever runs.
fn emit_if_then_else(e: &Expr, scope: &Vec<ScopeItem>, buf: &mut String) -> (r: Result<(), Flaw>)
    requires
        *e is IfThenElse,
    ensures
        emitted(compile_expr(*e, scope@), old(buf)@, final(buf)@, r),
    decreases *e, 5int,
{
    match e {
        Expr::IfThenElse { cond, then_body, else_body } => {
            proof {
                assert(decreases_to!(*e => e->IfThenElse_cond));
                assert(decreases_to!(*e => **cond));
                assert(decreases_to!(*e => e->IfThenElse_then_body));
                assert(decreases_to!(*e => **then_body));
                assert(decreases_to!(*e => e->IfThenElse_else_body));
                assert(decreases_to!(*e => **else_body));
            }
            buf.append("(() => {if (");
            let r = emit_expr(cond, scope, buf);
            match r {
                Result::Err(w) => {
                    return Result::Err(w);
                },
                Result::Ok(_) => {},
            }
            buf.append(") { return ");
            let r2 = emit_expr(then_body, scope, buf);
            match r2 {
                Result::Err(w) => {
                    return Result::Err(w);
                },
                Result::Ok(_) => {},
            }
            buf.append("} else { return ");
            let r3 = emit_expr(else_body, scope, buf);
            match r3 {
                Result::Err(w) => {
                    return Result::Err(w);
                },
                Result::Ok(_) => {},
            }
            buf.append("}})()");
            proof {
                assert(buf@ =~= old(buf)@ + compile_expr(*e, scope@)->Ok_0);
            }
            Result::Ok(())
        },
        _ => {
            proof {
                assert(false);
            }
            Result::Err(Flaw::LetAttrSet)
        },
    }
}

/// A unary operator, delegated to its runtime primitive.
fn emit_unary_op(e: &Expr, scope: &Vec<ScopeItem>, buf: &mut String) -> (r: Result<(), Flaw>)
    requires
        *e is UnaryOp,
    ensures
        emitted(compile_expr(*e, scope@), old(buf)@, final(buf)@, r),
    decreases *e, 5int,
{
    match e {
        Expr::UnaryOp { op, expr } => {
            proof {
                assert(decreases_to!(*e => e->UnaryOp_expr));
                assert(decreases_to!(*e => **expr));
            }
            match op {
                crate::ast::UnOpKind::Negate => emit_rt("negate", buf),
                crate::ast::UnOpKind::Not => emit_rt("not", buf),
            }
            buf.append("(");
            let r = emit_expr(expr, scope, buf);
            match r {
                Result::Err(w) => {
                    return Result::Err(w);
                },
                Result::Ok(_) => {},
            }
            buf.append(")");
            proof {
                assert(buf@ =~= old(buf)@ + compile_expr(*e, scope@)->Ok_0);
            }
            Result::Ok(())
        },
        _ => {
            proof {
                assert(false);
            }
            Result::Err(Flaw::LetAttrSet)
        },
    }
}

/// A binary operator: the call to the runtime primitive passes the compiled
/// left operand before the right one, whatever the operator.
fn emit_binary_op(e: &Expr, scope: &Vec<ScopeItem>, buf: &mut String) -> (r: Result<(), Flaw>)
    requires
        *e is BinaryOp,
    ensures
        emitted(compile_expr(*e, scope@), old(buf)@, final(buf)@, r),
    decreases *e, 5int,
{
    match e {
        Expr::BinaryOp { op, lhs, rhs } => {
            proof {
                assert(decreases_to!(*e => e->BinaryOp_lhs));
                assert(decreases_to!(*e => **lhs));
                assert(decreases_to!(*e => e->BinaryOp_rhs));
                assert(decreases_to!(*e => **rhs));
            }
            match op {
                crate::ast::BinOpKind::Imply => emit_rt("implies", buf),
                crate::ast::BinOpKind::Or => emit_rt("or", buf),
                crate::ast::BinOpKind::And => emit_rt("and", buf),
                crate::ast::BinOpKind::Equal => emit_rt("equals", buf),
                crate::ast::BinOpKind::NotEqual => emit_rt("notEquals", buf),
                crate::ast::BinOpKind::Less => emit_rt("lessThan", buf),
                crate::ast::BinOpKind::Greater => emit_rt("greaterThan", buf),
                crate::ast::BinOpKind::LessEqual => emit_rt("lessThanEqual", buf),
                crate::ast::BinOpKind::GreaterEqual => emit_rt("greaterThanEqual", buf),
                crate::ast::BinOpKind::Update => emit_rt("update", buf),
                crate::ast::BinOpKind::Concat => emit_rt("concat", buf),
                crate::ast::BinOpKind::Add => emit_rt("add", buf),
                crate::ast::BinOpKind::Sub => emit_rt("sub", buf),
                crate::ast::BinOpKind::Mul => emit_rt("mul", buf),
                crate::ast::BinOpKind::Div => emit_rt("div", buf),
            }
            buf.append("(");
            let r = emit_expr(lhs, scope, buf);
            match r {
                Result::Err(w) => {
                    return Result::Err(w);
                },
                Result::Ok(_) => {},
            }
            buf.append(",");
            let r2 = emit_expr(rhs, scope, buf);
            match r2 {
                Result::Err(w) => {
                    return Result::Err(w);
                },
                Result::Ok(_) => {},
            }
            buf.append(")");
            proof {
                assert(buf@ =~= old(buf)@ + compile_expr(*e, scope@)->Ok_0);
            }
            Result::Ok(())
        },
        _ => {
            proof {
                assert(false);
            }
            Result::Err(Flaw::LetAttrSet)
        },
    }
}

/// A literal: integers become arbitrary-precision literals, floats and URIs
/// are emitted verbatim, paths go through the runtime's resolver.
fn emit_literal(e: &Expr, buf: &mut String) -> (r: Result<(), Flaw>)
    requires
        *e is Literal,
    ensures
        forall|env: Seq<ScopeItem>| emitted(compile_expr(*e, env), old(buf)@, final(buf)@, r),
    decreases *e, 5int,
{
    match e {
        Expr::Literal { kind, text } => {
            match kind {
                LitKind::Int => {
                    buf.append(text.as_str());
                    buf.append("n");
                },
                LitKind::Float => {
                    buf.append(text.as_str());
                },
                LitKind::Uri => {
                    emit_quote(text.as_str(), buf);
                },
                LitKind::Path => {
                    emit_rt("resolvePath", buf);
                    buf.append("(");
                    emit_quote(text.as_str(), buf);
                    buf.append(")");
                },
                LitKind::SearchPath => {
                    emit_rt("resolveSearchPath", buf);
                    buf.append("(");
                    emit_quote(text.as_str(), buf);
                    buf.append(")");
                },
            }
            proof {
                assert forall|env: Seq<ScopeItem>|
                    emitted(compile_expr(*e, env), old(buf)@, buf@, Result::<(), Flaw>::Ok(
                        (),
                    )) by {
                    assert(buf@ =~= old(buf)@ + compile_expr(*e, env)->Ok_0);
                }
            }
            Result::Ok(())
        },
        _ => {
            proof {
                assert(false);
            }
            Result::Err(Flaw::LetAttrSet)
        },
    }
}

/// A list literal: an ordered sequence whose elements are each individually
/// deferred and memoized.
fn emit_list(e: &Expr, scope: &Vec<ScopeItem>, buf: &mut String) -> (r: Result<(), Flaw>)
    requires
        *e is List,
    ensures
        emitted(compile_expr(*e, scope@), old(buf)@, final(buf)@, r),
    decreases *e, 5int,
{
    match e {
        Expr::List { elements } => {
            proof {
                assert(decreases_to!(*e => e->List_elements));
                assert(decreases_to!(*elements => elements@));
                assert(decreases_to!(*e => elements@));
            }
            buf.append("[");
            let r = emit_elems(elements, scope, buf);
            match r {
                Result::Err(w) => {
                    return Result::Err(w);
                },
                Result::Ok(_) => {},
            }
            buf.append("]");
            proof {
                assert(buf@ =~= old(buf)@ + compile_expr(*e, scope@)->Ok_0);
            }
            Result::Ok(())
        },
        _ => {
            proof {
                assert(false);
            }
            Result::Err(Flaw::LetAttrSet)
        },
    }
}

/// A string literal with interpolation: the concatenation of its segments,
/// each interpolated expression forced exactly where the text is built.
fn emit_string(e: &Expr, scope: &Vec<ScopeItem>, buf: &mut String) -> (r: Result<(), Flaw>)
    requires
        *e is Str,
    ensures
        emitted(compile_expr(*e, scope@), old(buf)@, final(buf)@, r),
    decreases *e, 5int,
{
    match e {
        Expr::Str { parts } => {
            proof {
                assert(decreases_to!(*e => e->Str_parts));
                assert(decreases_to!(*parts => parts@));
                assert(decreases_to!(*e => parts@));
            }
            emit_rt("interpolate", buf);
            buf.append("([");
            let r = emit_parts(parts, scope, Option::None, false, buf);
            match r {
                Result::Err(w) => {
                    return Result::Err(w);
                },
                Result::Ok(_) => {},
            }
            buf.append("])");
            proof {
                assert(buf@ =~= old(buf)@ + compile_expr(*e, scope@)->Ok_0);
            }
            Result::Ok(())
        },
        _ => {
            proof {
                assert(false);
            }
            Result::Err(Flaw::LetAttrSet)
        },
    }
}

/// An indented string literal: its text segments first shed their common
/// leading whitespace, then concatenate like an ordinary string.
fn emit_indent_string(e: &Expr, scope: &Vec<ScopeItem>, buf: &mut String) -> (r: Result<(), Flaw>)
    requires
        *e is IndentStr,
    ensures
        emitted(compile_expr(*e, scope@), old(buf)@, final(buf)@, r),
    decreases *e, 5int,
{
    match e {
        Expr::IndentStr { parts } => {
            proof {
                assert(decreases_to!(*e => e->IndentStr_parts));
                assert(decreases_to!(*parts => parts@));
                assert(decreases_to!(*e => parts@));
            }
            let k = parts_ind(parts);
            emit_rt("interpolate", buf);
            buf.append("([");
            let r = emit_parts(parts, scope, Option::Some(k), true, buf);
            match r {
                Result::Err(w) => {
                    return Result::Err(w);
                },
                Result::Ok(_) => {},
            }
            buf.append("])");
            proof {
                assert(buf@ =~= old(buf)@ + compile_expr(*e, scope@)->Ok_0);
            }
            Result::Ok(())
        },
        _ => {
            proof {
                assert(false);
            }
            Result::Err(Flaw::LetAttrSet)
        },
    }
}

/// A path with interpolation: the concatenated text is handed to the
/// runtime's path resolver.
fn emit_path_interp(e: &Expr, scope: &Vec<ScopeItem>, buf: &mut String) -> (r: Result<(), Flaw>)
    requires
        *e is PathInterp,
    ensures
        emitted(compile_expr(*e, scope@), old(buf)@, final(buf)@, r),
    decreases *e, 5int,
{
    match e {
        Expr::PathInterp { parts } => {
            proof {
                assert(decreases_to!(*e => e->PathInterp_parts));
                assert(decreases_to!(*parts => parts@));
                assert(decreases_to!(*e => parts@));
            }
            emit_rt("resolvePath", buf);
            buf.append("(");
            emit_rt("interpolate", buf);
            buf.append("([");
            let r = emit_parts(parts, scope, Option::None, false, buf);
            match r {
                Result::Err(w) => {
                    return Result::Err(w);
                },
                Result::Ok(_) => {},
            }
            buf.append("])");
            buf.append(")");
            proof {
                assert(buf@ =~= old(buf)@ + compile_expr(*e, scope@)->Ok_0);
            }
            Result::Ok(())
        },
        _ => {
            proof {
                assert(false);
            }
            Result::Err(Flaw::LetAttrSet)
        },
    }
}

/// An attribute-presence test, delegated to the runtime over the compiled
/// set and path.
#[verifier::rlimit(80)]
fn emit_has_attr(e: &Expr, scope: &Vec<ScopeItem>, buf: &mut String) -> (r: Result<(), Flaw>)
    requires
        *e is HasAttr,
    ensures
        emitted(compile_expr(*e, scope@), old(buf)@, final(buf)@, r),
    decreases *e, 5int,
{
    match e {
        Expr::HasAttr { set, path } => {
            proof {
                assert(decreases_to!(*e => e->HasAttr_set));
                assert(decreases_to!(*e => **set));
                assert(decreases_to!(*e => e->HasAttr_path));
                assert(decreases_to!(*path => path@));
                assert(decreases_to!(*e => path@));
            }
            emit_rt("hasAttr", buf);
            buf.append("(");
            let r = emit_expr(set, scope, buf);
            match r {
                Result::Err(w) => {
                    return Result::Err(w);
                },
                Result::Ok(_) => {},
            }
            buf.append(",[");
            let r2 = emit_attrs(path, scope, buf);
            match r2 {
                Result::Err(w) => {
                    return Result::Err(w);
                },
                Result::Ok(_) => {},
            }
            buf.append("])");
            proof {
                assert(buf@ =~= old(buf)@ + compile_expr(*e, scope@)->Ok_0);
            }
            Result::Ok(())
        },
        _ => {
            proof {
                assert(false);
            }
            Result::Err(Flaw::LetAttrSet)
        },
    }
}

/// An attribute selection: the runtime walks the path lazily left to right
/// and falls back to the deferred default, when one was supplied, instead of
/// failing on a missing key.
#[verifier::rlimit(100)]
#[verifier::spinoff_prover]
fn emit_select(e: &Expr, scope: &Vec<ScopeItem>, buf: &mut String) -> (r: Result<(), Flaw>)
    requires
        *e is Select,
    ensures
        emitted(compile_expr(*e, scope@), old(buf)@, final(buf)@, r),
    decreases *e, 5int,
{
    match e {
        Expr::Select { set, path, default } => {
            proof {
                assert(decreases_to!(*e => e->Select_set));
                assert(decreases_to!(*e => **set));
                assert(decreases_to!(*e => e->Select_path));
                assert(decreases_to!(*path => path@));
                assert(decreases_to!(*e => path@));
            }
            emit_rt("select", buf);
            buf.append("(");
            let r = emit_expr(set, scope, buf);
            match r {
                Result::Err(w) => {
                    return Result::Err(w);
                },
                Result::Ok(_) => {},
            }
            buf.append(",[");
            let r2 = emit_attrs(path, scope, buf);
            match r2 {
                Result::Err(w) => {
                    return Result::Err(w);
                },
                Result::Ok(_) => {},
            }
            buf.append("],");
            match default {
                Option::None => {
                    buf.append("null");
                    buf.append(")");
                    proof {
                        reveal_strlit("],null)");
                        reveal_strlit("],");
                        reveal_strlit("null");
                        reveal_strlit(")");
                        assert("],null)"@ =~= "],"@ + "null"@ + ")"@);
                        let sc = compile_expr(**set, scope@)->Ok_0;
                        let ks = compile_attrs(path@, scope@)->Ok_0;
                        let expected = crate::code::rt_text("select"@) + "("@ + sc + ",["@ + ks
                            + "],null)"@;
                        assert(compile_expr(*e, scope@) == Result::<Seq<char>, Flaw>::Ok(expected));
                        assert(buf@ =~= old(buf)@ + expected);
                    }
                    Result::Ok(())
                },
                Option::Some(d) => {
                    proof {
                        assert(decreases_to!(*e => e->Select_default));
                        assert(decreases_to!(*default => default->Some_0));
                        assert(decreases_to!(*e => **d));
                    }
                    emit_thunk_open(buf);
                    let r3 = emit_expr(d, scope, buf);
                    match r3 {
                        Result::Err(w) => {
                            return Result::Err(w);
                        },
                        Result::Ok(_) => {},
                    }
                    buf.append(")");
                    buf.append(")");
                    proof {
                        let sc = compile_expr(**set, scope@)->Ok_0;
                        let ks = compile_attrs(path@, scope@)->Ok_0;
                        let dc = compile_expr(**d, scope@)->Ok_0;
                        let expected = crate::code::rt_text("select"@) + "("@ + sc + ",["@ + ks
                            + "],"@ + crate::code::thunk_text(dc) + ")"@;
                        assert(compile_expr(*e, scope@) == Result::<Seq<char>, Flaw>::Ok(expected));
                        assert(buf@ =~= old(buf)@ + expected);
                    }
                    Result::Ok(())
                },
            }
        },
        _ => {
            proof {
                assert(false);
            }
            Result::Err(Flaw::LetAttrSet)
        },
    }
}

/// A lambda: one bound name becomes a one-argument function; an
/// attribute-set pattern checks its argument, binds each formal to a
/// deferred field read or its default, and optionally aliases the whole
/// argument.
#[verifier::rlimit(100)]
#[verifier::spinoff_prover]
fn emit_lambda(e: &Expr, scope: &Vec<ScopeItem>, buf: &mut String) -> (r: Result<(), Flaw>)
    requires
        *e is Lambda,
    ensures
        emitted(compile_expr(*e, scope@), old(buf)@, final(buf)@, r),
    decreases *e, 5int,
{
    match e {
        Expr::Lambda { param, body } => {
            proof {
                assert(decreases_to!(*e => e->Lambda_body));
                assert(decreases_to!(*e => **body));
            }
            match param {
                Param::Ident(x) => {
                    let mut inner = scope_clone(scope);
                    inner.push(ScopeItem::Name(x.clone()));
                    buf.append("((");
                    buf.append(x.as_str());
                    buf.append(") => ");
                    let r = emit_expr(body, &inner, buf);
                    match r {
                        Result::Err(w) => {
                            return Result::Err(w);
                        },
                        Result::Ok(_) => {},
                    }
                    buf.append(")");
                    proof {
                        assert(inner@ == scope@.push(ScopeItem::Name(*x)));
                        let bc = compile_expr(**body, scope@.push(ScopeItem::Name(*x)))->Ok_0;
                        let expected = "(("@ + x@ + ") => "@ + bc + ")"@;
                        assert(compile_expr(*e, scope@) == Result::<Seq<char>, Flaw>::Ok(expected));
                        assert(buf@ =~= old(buf)@ + expected);
                    }
                    Result::Ok(())
                },
                Param::Pattern { .. } => emit_lambda_pattern(e, scope, buf),
            }
        },
        _ => {
            proof {
                assert(false);
            }
            Result::Err(Flaw::LetAttrSet)
        },
    }
}

/// The scope chain a pattern lambda's body and defaults are compiled under:
/// the enclosing chain extended with every formal and the alias, if any.
fn pattern_scope(
    scope: &Vec<ScopeItem>,
    fields: &Vec<PatField>,
    alias: &Option<String>,
) -> (r: Vec<ScopeItem>)
    ensures
        r@ == pattern_env(scope@, fields@, *alias),
{
    let mut inner = scope_clone(scope);
    let mut i: usize = 0;
    while i < fields.len()
        invariant
            0 <= i <= fields.len(),
            inner@ == scope@ + pat_names(fields@.subrange(0, i as int)),
        decreases fields.len() - i,
    {
        proof {
            assert(fields@.subrange(0, i as int + 1).drop_last() =~= fields@.subrange(0, i as int));
            assert(fields@.subrange(0, i as int + 1).last() == fields@[i as int]);
        }
        inner.push(ScopeItem::Name(fields[i].name.clone()));
        proof {
            assert(inner@ =~= scope@ + pat_names(fields@.subrange(0, i as int + 1)));
        }
        i = i + 1;
    }
    proof {
        assert(fields@.subrange(0, fields@.len() as int) =~= fields@);
    }
    match alias {
        Option::Some(a) => {
            inner.push(ScopeItem::Name(a.clone()));
        },
        Option::None => {},
    }
    proof {
        assert(inner@ =~= pattern_env(scope@, fields@, *alias));
    }
    inner
}

/// A lambda whose parameter is an attribute-set pattern: the emitted
/// function checks its argument against the declared formals, binds each of
/// them to a deferred field read or its compiled default, and optionally
/// aliases the whole argument.
#[verifier::rlimit(100)]
#[verifier::spinoff_prover]
fn emit_lambda_pattern(e: &Expr, scope: &Vec<ScopeItem>, buf: &mut String) -> (r: Result<
    (),
    Flaw,
>)
    requires
        *e is Lambda,
        e->Lambda_param is Pattern,
    ensures
        emitted(compile_expr(*e, scope@), old(buf)@, final(buf)@, r),
    decreases *e, 4int,
{
    match e {
        Expr::Lambda { param, body } => {
            proof {
                assert(decreases_to!(*e => e->Lambda_body));
                assert(decreases_to!(*e => **body));
            }
            match param {
                Param::Pattern { fields, open, alias } => {
                    proof {
                        assert(decreases_to!(*e => e->Lambda_param));
                        assert(decreases_to!(*param => param->Pattern_fields));
                        assert(decreases_to!(*fields => fields@));
                        assert(decreases_to!(*e => fields@));
                    }
                    let inner = pattern_scope(scope, fields, alias);
                    buf.append("((__12345_arg) => {");
                    emit_rt("checkPattern", buf);
                    buf.append("(__12345_arg,[");
                    emit_field_names(fields, buf);
                    buf.append("],");
                    if *open {
                        buf.append("true");
                    } else {
                        buf.append("false");
                    }
                    buf.append(");");
                    let r = emit_formals(fields, &inner, buf);
                    match r {
                        Result::Err(w) => {
                            return Result::Err(w);
                        },
                        Result::Ok(_) => {},
                    }
                    match alias {
                        Option::Some(a) => {
                            buf.append("const ");
                            buf.append(a.as_str());
                            buf.append(" = __12345_arg;");
                        },
                        Option::None => {},
                    }
                    buf.append("return ");
                    let r2 = emit_expr(body, &inner, buf);
                    match r2 {
                        Result::Err(w) => {
                            return Result::Err(w);
                        },
                        Result::Ok(_) => {},
                    }
                    buf.append("})");
                    proof {
                        let inner_env = pattern_env(scope@, fields@, *alias);
                        let fc = compile_formals(fields@, inner_env)->Ok_0;
                        let bc = compile_expr(**body, inner_env)->Ok_0;
                        let expected = "((__12345_arg) => {"@ + crate::code::rt_text(
                            "checkPattern"@,
                        ) + "(__12345_arg,["@ + field_names_text(fields@) + "],"@ + (if *open {
                            "true"@
                        } else {
                            "false"@
                        }) + ");"@ + fc + crate::code::alias_text(*alias) + "return "@ + bc
                            + "})"@;
                        assert(compile_expr(*e, scope@) == Result::<Seq<char>, Flaw>::Ok(expected));
                        assert(buf@ =~= old(buf)@ + expected);
                    }
                    Result::Ok(())
                },
                _ => {
                    proof {
                        assert(false);
                    }
                    Result::Err(Flaw::LetAttrSet)
                },
            }
        },
        _ => {
            proof {
                assert(false);
            }
            Result::Err(Flaw::LetAttrSet)
        },
    }
}

/// A `with` expression: the target set is deferred and evaluated at most
/// once; references that miss the lexical scope consult it by name.
#[verifier::rlimit(100)]
#[verifier::spinoff_prover]
fn emit_with(e: &Expr, scope: &Vec<ScopeItem>, buf: &mut String) -> (r: Result<(), Flaw>)
    requires
        *e is With,
    ensures
        emitted(compile_expr(*e, scope@), old(buf)@, final(buf)@, r),
    decreases *e, 5int,
{
    match e {
        Expr::With { env: we, body } => {
            proof {
                assert(decreases_to!(*e => e->With_env));
                assert(decreases_to!(*e => **we));
                assert(decreases_to!(*e => e->With_body));
                assert(decreases_to!(*e => **body));
            }
            buf.append("(() => {const __12345_with_");
            let k = count_withs(scope);
            emit_dec(k, buf);
            buf.append(" = ");
            emit_thunk_open(buf);
            let r = emit_expr(we, scope, buf);
            match r {
                Result::Err(w) => {
                    return Result::Err(w);
                },
                Result::Ok(_) => {},
            }
            buf.append(")");
            buf.append(";return ");
            let mut inner = scope_clone(scope);
            inner.push(ScopeItem::WithMark);
            proof {
                assert(inner@ == scope@.push(ScopeItem::WithMark));
            }
            let r2 = emit_expr(body, &inner, buf);
            match r2 {
                Result::Err(w) => {
                    return Result::Err(w);
                },
                Result::Ok(_) => {},
            }
            buf.append("})()");
            proof {
                let wc = compile_expr(**we, scope@)->Ok_0;
                let bc = compile_expr(**body, scope@.push(ScopeItem::WithMark))->Ok_0;
                let expected = "(() => {const __12345_with_"@ + crate::scope::dec_text(
                    crate::scope::with_count(scope@),
                ) + " = "@ + crate::code::thunk_text(wc) + ";return "@ + bc + "})()"@;
                assert(compile_expr(*e, scope@) == Result::<Seq<char>, Flaw>::Ok(expected));
                assert(buf@ =~= old(buf)@ + expected);
            }
            Result::Ok(())
        },
        _ => {
            proof {
                assert(false);
            }
            Result::Err(Flaw::LetAttrSet)
        },
    }
}

/// An attribute set: a fresh anonymous constructor whose fields receive the
/// deferred binding values; a recursive set additionally aliases each static
/// single name locally so sibling bindings resolve it. The legacy `let`
/// attribute-set form is a fatal input error.
#[verifier::rlimit(100)]
#[verifier::spinoff_prover]
fn emit_attrset(e: &Expr, scope: &Vec<ScopeItem>, buf: &mut String) -> (r: Result<(), Flaw>)
    requires
        *e is AttrSet,
    ensures
        emitted(compile_expr(*e, scope@), old(buf)@, final(buf)@, r),
    decreases *e, 5int,
{
    match e {
        Expr::AttrSet { is_let, is_rec, bindings } => {
            proof {
                assert(decreases_to!(*e => e->AttrSet_bindings));
                assert(decreases_to!(*bindings => bindings@));
                assert(decreases_to!(*e => bindings@));
            }
            if *is_let {
                return Result::Err(Flaw::LetAttrSet);
            }
            let mut vals = scope_clone(scope);
            if *is_rec {
                push_rec_names(&mut vals, bindings);
            }
            buf.append("(new function() {");
            let r = emit_bindings(bindings, scope, &vals, *is_rec, buf);
            match r {
                Result::Err(w) => {
                    return Result::Err(w);
                },
                Result::Ok(_) => {},
            }
            buf.append("})");
            proof {
                assert(buf@ =~= old(buf)@ + compile_expr(*e, scope@)->Ok_0);
            }
            Result::Ok(())
        },
        _ => {
            proof {
                assert(false);
            }
            Result::Err(Flaw::LetAttrSet)
        },
    }
}

/// A `let … in` expression: its bindings form a recursive attribute set that
/// the emitted code builds anonymously and immediately selects the body out
/// of, so sibling and self references resolve through the same deferred
/// fields.
#[verifier::rlimit(100)]
#[verifier::spinoff_prover]
fn emit_let_in(e: &Expr, scope: &Vec<ScopeItem>, buf: &mut String) -> (r: Result<(), Flaw>)
    requires
        *e is LetIn,
    ensures
        emitted(compile_expr(*e, scope@), old(buf)@, final(buf)@, r),
    decreases *e, 5int,
{
    match e {
        Expr::LetIn { bindings, body } => {
            proof {
                assert(decreases_to!(*e => e->LetIn_bindings));
                assert(decreases_to!(*bindings => bindings@));
                assert(decreases_to!(*e => bindings@));
                assert(decreases_to!(*e => e->LetIn_body));
                assert(decreases_to!(*e => **body));
            }
            let mut vals = scope_clone(scope);
            push_rec_names(&mut vals, bindings);
            emit_rt("select", buf);
            buf.append("((new function() {");
            let r = emit_bindings(bindings, scope, &vals, true, buf);
            match r {
                Result::Err(w) => {
                    return Result::Err(w);
                },
                Result::Ok(_) => {},
            }
            buf.append("self.__12345_let = ");
            emit_thunk_open(buf);
            let r2 = emit_expr(body, &vals, buf);
            match r2 {
                Result::Err(w) => {
                    return Result::Err(w);
                },
                Result::Ok(_) => {},
            }
            buf.append(")");
            buf.append(";}),[\"__12345_let\",],null)");
            proof {
                assert(buf@ =~= old(buf)@ + compile_expr(*e, scope@)->Ok_0);
            }
            Result::Ok(())
        },
        _ => {
            proof {
                assert(false);
            }
            Result::Err(Flaw::LetAttrSet)
        },
    }
}

/// The top-level entry point: compiles a root expression to one
/// self-contained piece of target code, or aborts with the fatal input
/// error, emitting nothing.
pub fn codegen(expr: &Expr) -> (r: Result<String, Flaw>)
    ensures
        (match compile_expr(*expr, Seq::empty()) {
            Result::Ok(c) => r is Ok && r->Ok_0@ == c,
            Result::Err(w) => r == Result::<String, Flaw>::Err(w),
        }),
{
    let scope: Vec<ScopeItem> = Vec::new();
    let mut buf = String::new();
    match emit_expr(expr, &scope, &mut buf) {
        Result::Ok(_) => {
            proof {
                assert(buf@ =~= compile_expr(*expr, Seq::empty())->Ok_0);
            }
            Result::Ok(buf)
        },
        Result::Err(w) => Result::Err(w),
    }
}

} // verus!
