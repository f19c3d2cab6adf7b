use vstd::prelude::*;
use crate::ast::{Attr, BinOpKind, Binding, Expr, Flaw, LitKind, Param, PatField, StringPart, UnOpKind};
use crate::indent::{min_ind, opt_min, strip_text};
use crate::scope::{ScopeItem, dec_text, lex_bound, rec_names, with_count, with_refs_text};

verus! {

/// The name of a runtime support primitive, under the fixed namespace that
/// the emitted code and the runtime library agree on.
pub open spec fn rt_text(method: Seq<char>) -> Seq<char> {
    "__12345_runtime."@ + method
}

/// A double-quoted occurrence of `s` (token text is emitted verbatim).
pub open spec fn quote_text(s: Seq<char>) -> Seq<char> {
    "\""@ + s + "\""@
}

/// A deferred, memoized computation of the code `c`: the runtime's thunk
/// constructor applied to a zero-argument closure.
pub open spec fn thunk_text(c: Seq<char>) -> Seq<char> {
    rt_text("newThunk"@) + "(() => "@ + c + ")"@
}

/// The concatenation call that a string literal with interpolation becomes:
/// the runtime stringifies and joins the given segments in order.
pub open spec fn interp_text(segments: Seq<char>) -> Seq<char> {
    rt_text("interpolate"@) + "(["@ + segments + "])"@
}

/// The runtime primitive that carries out a binary operator.
pub open spec fn bin_op_text(op: BinOpKind) -> Seq<char> {
    match op {
        BinOpKind::Imply => "implies"@,
        BinOpKind::Or => "or"@,
        BinOpKind::And => "and"@,
        BinOpKind::Equal => "equals"@,
        BinOpKind::NotEqual => "notEquals"@,
        BinOpKind::Less => "lessThan"@,
        BinOpKind::Greater => "greaterThan"@,
        BinOpKind::LessEqual => "lessThanEqual"@,
        BinOpKind::GreaterEqual => "greaterThanEqual"@,
        BinOpKind::Update => "update"@,
        BinOpKind::Concat => "concat"@,
        BinOpKind::Add => "add"@,
        BinOpKind::Sub => "sub"@,
        BinOpKind::Mul => "mul"@,
        BinOpKind::Div => "div"@,
    }
}

/// The runtime primitive that carries out a unary operator.
pub open spec fn un_op_text(op: UnOpKind) -> Seq<char> {
    match op {
        UnOpKind::Negate => "negate"@,
        UnOpKind::Not => "not"@,
    }
}

/// What a name reference compiles to: a lexically bound name forces the
/// thunk it denotes; an unbound one is looked up in the enclosing `with`
/// scopes, innermost first, and failing those is an evaluation-time error.
pub open spec fn ref_text(n: Seq<char>, env: Seq<ScopeItem>) -> Seq<char> {
    if lex_bound(env, n) {
        rt_text("force"@) + "("@ + n + ")"@
    } else {
        rt_text("lookup"@) + "("@ + quote_text(n) + ",["@ + with_refs_text(with_count(env)) + "])"@
    }
}

/// The value an `inherit` binding copies: the enclosing scope's binding for
/// a bare `inherit`, or a selection out of the compiled source expression.
pub open spec fn inherit_value_text(n: Seq<char>, src: Option<Seq<char>>, outer: Seq<ScopeItem>) -> Seq<char> {
    match src {
        Option::None => ref_text(n, outer),
        Option::Some(c) => rt_text("select"@) + "("@ + c + ",["@ + quote_text(n) + ",],null)"@,
    }
}

/// The local alias of the whole argument that a pattern lambda may bind.
pub open spec fn alias_text(alias: Option<String>) -> Seq<char> {
    match alias {
        Option::Some(a) => "const "@ + a@ + " = __12345_arg;"@,
        Option::None => Seq::empty(),
    }
}

/// The names a pattern lambda binds in its body: its formals in order, then
/// the whole-argument alias if one was declared.
pub open spec fn pat_names(fs: Seq<PatField>) -> Seq<ScopeItem>
    decreases fs,
{
    if fs.len() == 0 {
        Seq::empty()
    } else {
        pat_names(fs.drop_last()) + seq![ScopeItem::Name(fs.last().name)]
    }
}

pub open spec fn pattern_env(env: Seq<ScopeItem>, fs: Seq<PatField>, alias: Option<String>) -> Seq<ScopeItem> {
    env + pat_names(fs) + (match alias {
        Option::Some(a) => seq![ScopeItem::Name(a)],
        Option::None => Seq::empty(),
    })
}

/// The quoted formal names handed to the runtime's pattern check.
pub open spec fn field_names_text(fs: Seq<PatField>) -> Seq<char>
    decreases fs,
{
    if fs.len() == 0 {
        Seq::empty()
    } else {
        field_names_text(fs.drop_last()) + quote_text(fs.last().name@) + ","@
    }
}

/// The least indentation contributed by one string segment, counted only
/// when the segment text stands at a line start.
pub open spec fn part_ind(p: StringPart, at_start: bool) -> Option<nat> {
    match p {
        StringPart::Lit(t) => min_ind(t@, at_start),
        StringPart::Interp(_) => Option::None,
    }
}

/// The least indentation over all line-starting text of the segments; only
/// the very first segment begins at a line start.
pub open spec fn min_ind_parts(s: Seq<StringPart>, first: bool) -> Option<nat>
    decreases s,
{
    if s.len() == 0 {
        Option::None
    } else {
        opt_min(min_ind_parts(s.drop_last(), first), part_ind(s.last(), first && s.len() == 1))
    }
}

/// The indentation an indented string literal sheds from each line.
pub open spec fn ind_of(s: Seq<StringPart>) -> nat {
    match min_ind_parts(s, true) {
        Option::Some(k) => k,
        Option::None => 0,
    }
}

/// The code of one string segment: quoted (de-indented, for an indented
/// string) literal text, or the compiled interpolated expression, forced
/// where the concatenation is built.
pub open spec fn compile_part(
    p: StringPart,
    env: Seq<ScopeItem>,
    strip: Option<nat>,
    at_start: bool,
) -> Result<Seq<char>, Flaw>
    decreases p,
{
    match p {
        StringPart::Lit(t) => Result::Ok(
            quote_text(
                match strip {
                    Option::None => t@,
                    Option::Some(k) => strip_text(t@, k, at_start),
                },
            ),
        ),
        StringPart::Interp(e) => compile_expr(*e, env),
    }
}

/// The comma-terminated segment list of a string literal, in source order.
pub open spec fn compile_parts(
    s: Seq<StringPart>,
    env: Seq<ScopeItem>,
    strip: Option<nat>,
    first: bool,
) -> Result<Seq<char>, Flaw>
    decreases s,
{
    if s.len() == 0 {
        Result::Ok(Seq::empty())
    } else {
        match compile_parts(s.drop_last(), env, strip, first) {
            Result::Err(w) => Result::Err(w),
            Result::Ok(rest) => match compile_part(s.last(), env, strip, first && s.len() == 1) {
                Result::Err(w) => Result::Err(w),
                Result::Ok(c) => Result::Ok(rest + c + ","@),
            },
        }
    }
}

/// The code of one attribute-path component in key position: a static name
/// becomes a string literal; a string or dynamic key is compiled as an
/// ordinary expression, forced only when the key is needed.
pub open spec fn compile_attr(a: Attr, env: Seq<ScopeItem>) -> Result<Seq<char>, Flaw>
    decreases a,
{
    match a {
        Attr::Name(n) => Result::Ok(quote_text(n@)),
        Attr::Str(parts) => match compile_parts(parts@, env, Option::None, false) {
            Result::Err(w) => Result::Err(w),
            Result::Ok(c) => Result::Ok(interp_text(c)),
        },
        Attr::Dynamic(e) => compile_expr(*e, env),
    }
}

/// The comma-terminated attribute-path component list, in source order.
pub open spec fn compile_attrs(s: Seq<Attr>, env: Seq<ScopeItem>) -> Result<Seq<char>, Flaw>
    decreases s,
{
    if s.len() == 0 {
        Result::Ok(Seq::empty())
    } else {
        match compile_attrs(s.drop_last(), env) {
            Result::Err(w) => Result::Err(w),
            Result::Ok(rest) => match compile_attr(s.last(), env) {
                Result::Err(w) => Result::Err(w),
                Result::Ok(c) => Result::Ok(rest + c + ","@),
            },
        }
    }
}

/// The assignments an `inherit` clause becomes; only static names are legal
/// here, anything else is a fatal input error.
pub open spec fn compile_inherits(
    attrs: Seq<Attr>,
    src: Option<Seq<char>>,
    outer: Seq<ScopeItem>,
) -> Result<Seq<char>, Flaw>
    decreases attrs,
{
    if attrs.len() == 0 {
        Result::Ok(Seq::empty())
    } else {
        match compile_inherits(attrs.drop_last(), src, outer) {
            Result::Err(w) => Result::Err(w),
            Result::Ok(rest) => match attrs.last() {
                Attr::Name(n) => Result::Ok(
                    rest + "self."@ + n@ + " = "@ + thunk_text(inherit_value_text(n@, src, outer))
                        + ";"@,
                ),
                _ => Result::Err(Flaw::InheritAttr),
            },
        }
    }
}

/// The statements one binding of an attribute set contributes: the deferred
/// value is assigned under its key, and a recursive set additionally aliases
/// a single static name locally so siblings can reference it.
pub open spec fn compile_binding(
    b: Binding,
    outer: Seq<ScopeItem>,
    vals: Seq<ScopeItem>,
    is_rec: bool,
) -> Result<Seq<char>, Flaw>
    decreases b,
{
    match b {
        Binding::AttrpathValue { path, value } => {
            if path@.len() == 0 {
                Result::Err(Flaw::EmptyAttrPath)
            } else if path@.len() == 1 {
                match path@[0] {
                    Attr::Name(n) => match compile_expr(*value, vals) {
                        Result::Err(w) => Result::Err(w),
                        Result::Ok(c) => Result::Ok(
                            "self."@ + n@ + " = "@ + thunk_text(c) + ";"@ + (if is_rec {
                                "let "@ + n@ + " = self."@ + n@ + ";"@
                            } else {
                                Seq::empty()
                            }),
                        ),
                    },
                    key => match compile_attr(key, vals) {
                        Result::Err(w) => Result::Err(w),
                        Result::Ok(kc) => match compile_expr(*value, vals) {
                            Result::Err(w) => Result::Err(w),
                            Result::Ok(c) => Result::Ok(
                                "self["@ + kc + "] = "@ + thunk_text(c) + ";"@,
                            ),
                        },
                    },
                }
            } else {
                match compile_attrs(path@, vals) {
                    Result::Err(w) => Result::Err(w),
                    Result::Ok(ks) => match compile_expr(*value, vals) {
                        Result::Err(w) => Result::Err(w),
                        Result::Ok(c) => Result::Ok(
                            rt_text("assignPath"@) + "(self,["@ + ks + "],"@ + thunk_text(c)
                                + ");"@,
                        ),
                    },
                }
            }
        },
        Binding::Inherit { from, attrs } => match from {
            Option::None => compile_inherits(attrs@, Option::None, outer),
            Option::Some(src) => match compile_expr(*src, vals) {
                Result::Err(w) => Result::Err(w),
                Result::Ok(c) => compile_inherits(attrs@, Option::Some(c), outer),
            },
        },
    }
}

/// The statement list of an attribute set's bindings, in source order.
pub open spec fn compile_bindings(
    s: Seq<Binding>,
    outer: Seq<ScopeItem>,
    vals: Seq<ScopeItem>,
    is_rec: bool,
) -> Result<Seq<char>, Flaw>
    decreases s,
{
    if s.len() == 0 {
        Result::Ok(Seq::empty())
    } else {
        match compile_bindings(s.drop_last(), outer, vals, is_rec) {
            Result::Err(w) => Result::Err(w),
            Result::Ok(rest) => match compile_binding(s.last(), outer, vals, is_rec) {
                Result::Err(w) => Result::Err(w),
                Result::Ok(c) => Result::Ok(rest + c),
            },
        }
    }
}

/// The local declarations of a pattern lambda's formals: each name is bound
/// to a deferred read of the argument's field, falling back to the compiled
/// default where one was declared.
pub open spec fn compile_formals(fs: Seq<PatField>, inner: Seq<ScopeItem>) -> Result<
    Seq<char>,
    Flaw,
>
    decreases fs,
{
    if fs.len() == 0 {
        Result::Ok(Seq::empty())
    } else {
        match compile_formals(fs.drop_last(), inner) {
            Result::Err(w) => Result::Err(w),
            Result::Ok(rest) => {
                let f = fs.last();
                let dflt = match f.default {
                    Option::None => Result::<Seq<char>, Flaw>::Ok("null"@),
                    Option::Some(d) => match compile_expr(*d, inner) {
                        Result::Err(w) => Result::Err(w),
                        Result::Ok(c) => Result::Ok(thunk_text(c)),
                    },
                };
                match dflt {
                    Result::Err(w) => Result::Err(w),
                    Result::Ok(dc) => Result::Ok(
                        rest + "const "@ + f.name@ + " = "@ + rt_text("formal"@) + "(__12345_arg,"@
                            + quote_text(f.name@) + ","@ + dc + ");"@,
                    ),
                }
            },
        }
    }
}

/// The comma-terminated, individually deferred element list of a list
/// literal: unused elements are never evaluated, used ones at most once.
pub open spec fn compile_elems(s: Seq<Expr>, env: Seq<ScopeItem>) -> Result<Seq<char>, Flaw>
    decreases s,
{
    if s.len() == 0 {
        Result::Ok(Seq::empty())
    } else {
        match compile_elems(s.drop_last(), env) {
            Result::Err(w) => Result::Err(w),
            Result::Ok(rest) => match compile_expr(s.last(), env) {
                Result::Err(w) => Result::Err(w),
                Result::Ok(c) => Result::Ok(rest + thunk_text(c) + ","@),
            },
        }
    }
}

/// What each expression node compiles to under the scope chain `env`: the
/// exact target text whose evaluation yields the node's weak-head normal
/// form, or the fatal input error that aborts compilation.
pub open spec fn compile_expr(e: Expr, env: Seq<ScopeItem>) -> Result<Seq<char>, Flaw>
    decreases e,
{
    match e {
        Expr::Literal { kind, text } => Result::Ok(
            match kind {
                LitKind::Int => text@ + "n"@,
                LitKind::Float => text@,
                LitKind::Uri => quote_text(text@),
                LitKind::Path => rt_text("resolvePath"@) + "("@ + quote_text(text@) + ")"@,
                LitKind::SearchPath => rt_text("resolveSearchPath"@) + "("@ + quote_text(text@)
                    + ")"@,
            },
        ),
        Expr::Ref { name } => Result::Ok(ref_text(name@, env)),
        Expr::Paren { inner } => compile_expr(*inner, env),
        Expr::Apply { func, arg } => match compile_expr(*func, env) {
            Result::Err(w) => Result::Err(w),
            Result::Ok(f) => match compile_expr(*arg, env) {
                Result::Err(w) => Result::Err(w),
                Result::Ok(x) => Result::Ok(f + ".call(null,"@ + thunk_text(x) + ")"@),
            },
        },
        Expr::Assert { cond, body } => match compile_expr(*cond, env) {
            Result::Err(w) => Result::Err(w),
            Result::Ok(c) => match compile_expr(*body, env) {
                Result::Err(w) => Result::Err(w),
                Result::Ok(b) => Result::Ok("(() => {assert("@ + c + ");return "@ + b + "})()"@),
            },
        },
        Expr::IfThenElse { cond, then_body, else_body } => match compile_expr(*cond, env) {
            Result::Err(w) => Result::Err(w),
            Result::Ok(c) => match compile_expr(*then_body, env) {
                Result::Err(w) => Result::Err(w),
                Result::Ok(t) => match compile_expr(*else_body, env) {
                    Result::Err(w) => Result::Err(w),
                    Result::Ok(f) => Result::Ok(
                        "(() => {if ("@ + c + ") { return "@ + t + "} else { return "@ + f
                            + "}})()"@,
                    ),
                },
            },
        },
        Expr::UnaryOp { op, expr } => match compile_expr(*expr, env) {
            Result::Err(w) => Result::Err(w),
            Result::Ok(c) => Result::Ok(rt_text(un_op_text(op)) + "("@ + c + ")"@),
        },
        Expr::BinaryOp { op, lhs, rhs } => match compile_expr(*lhs, env) {
            Result::Err(w) => Result::Err(w),
            Result::Ok(l) => match compile_expr(*rhs, env) {
                Result::Err(w) => Result::Err(w),
                Result::Ok(r) => Result::Ok(
                    rt_text(bin_op_text(op)) + "("@ + l + ","@ + r + ")"@,
                ),
            },
        },
        Expr::List { elements } => match compile_elems(elements@, env) {
            Result::Err(w) => Result::Err(w),
            Result::Ok(c) => Result::Ok("["@ + c + "]"@),
        },
        Expr::Str { parts } => match compile_parts(parts@, env, Option::None, false) {
            Result::Err(w) => Result::Err(w),
            Result::Ok(c) => Result::Ok(interp_text(c)),
        },
        Expr::IndentStr { parts } => match compile_parts(
            parts@,
            env,
            Option::Some(ind_of(parts@)),
            true,
        ) {
            Result::Err(w) => Result::Err(w),
            Result::Ok(c) => Result::Ok(interp_text(c)),
        },
        Expr::PathInterp { parts } => match compile_parts(parts@, env, Option::None, false) {
            Result::Err(w) => Result::Err(w),
            Result::Ok(c) => Result::Ok(rt_text("resolvePath"@) + "("@ + interp_text(c) + ")"@),
        },
        Expr::HasAttr { set, path } => match compile_expr(*set, env) {
            Result::Err(w) => Result::Err(w),
            Result::Ok(s) => match compile_attrs(path@, env) {
                Result::Err(w) => Result::Err(w),
                Result::Ok(ks) => Result::Ok(
                    rt_text("hasAttr"@) + "("@ + s + ",["@ + ks + "])"@,
                ),
            },
        },
        Expr::Select { set, path, default } => match compile_expr(*set, env) {
            Result::Err(w) => Result::Err(w),
            Result::Ok(s) => match compile_attrs(path@, env) {
                Result::Err(w) => Result::Err(w),
                Result::Ok(ks) => match default {
                    Option::None => Result::Ok(
                        rt_text("select"@) + "("@ + s + ",["@ + ks + "],null)"@,
                    ),
                    Option::Some(d) => match compile_expr(*d, env) {
                        Result::Err(w) => Result::Err(w),
                        Result::Ok(dc) => Result::Ok(
                            rt_text("select"@) + "("@ + s + ",["@ + ks + "],"@ + thunk_text(dc)
                                + ")"@,
                        ),
                    },
                },
            },
        },
        Expr::Lambda { param, body } => match param {
            Param::Ident(x) => match compile_expr(*body, env.push(ScopeItem::Name(x))) {
                Result::Err(w) => Result::Err(w),
                Result::Ok(c) => Result::Ok("(("@ + x@ + ") => "@ + c + ")"@),
            },
            Param::Pattern { fields, open, alias } => {
                let inner = pattern_env(env, fields@, alias);
                match compile_formals(fields@, inner) {
                    Result::Err(w) => Result::Err(w),
                    Result::Ok(fc) => match compile_expr(*body, inner) {
                        Result::Err(w) => Result::Err(w),
                        Result::Ok(bc) => Result::Ok(
                            "((__12345_arg) => {"@ + rt_text("checkPattern"@) + "(__12345_arg,["@
                                + field_names_text(fields@) + "],"@ + (if open {
                                "true"@
                            } else {
                                "false"@
                            }) + ");"@ + fc + alias_text(alias) + "return "@ + bc + "})"@,
                        ),
                    },
                }
            },
        },
        Expr::With { env: we, body } => match compile_expr(*we, env) {
            Result::Err(w) => Result::Err(w),
            Result::Ok(wc) => match compile_expr(*body, env.push(ScopeItem::WithMark)) {
                Result::Err(w) => Result::Err(w),
                Result::Ok(bc) => Result::Ok(
                    "(() => {const __12345_with_"@ + dec_text(with_count(env)) + " = "@
                        + thunk_text(wc) + ";return "@ + bc + "})()"@,
                ),
            },
        },
        Expr::AttrSet { is_let, is_rec, bindings } => {
            if is_let {
                Result::Err(Flaw::LetAttrSet)
            } else {
                let vals = if is_rec {
                    env + rec_names(bindings@)
                } else {
                    env
                };
                match compile_bindings(bindings@, env, vals, is_rec) {
                    Result::Err(w) => Result::Err(w),
                    Result::Ok(bc) => Result::Ok("(new function() {"@ + bc + "})"@),
                }
            }
        },
        Expr::LetIn { bindings, body } => {
            let vals = env + rec_names(bindings@);
            match compile_bindings(bindings@, env, vals, true) {
                Result::Err(w) => Result::Err(w),
                Result::Ok(bc) => match compile_expr(*body, vals) {
                    Result::Err(w) => Result::Err(w),
                    Result::Ok(c) => Result::Ok(
                        rt_text("select"@) + "((new function() {"@ + bc + "self.__12345_let = "@
                            + thunk_text(c) + ";}),[\"__12345_let\",],null)"@,
                    ),
                },
            }
        },
    }
}

} // verus!
