use nixgen::ast::{Attr, BinOpKind, Binding, Expr, Flaw, LitKind, Param, PatField, StringPart, UnOpKind};
use nixgen::emit::codegen;
use nixgen::rt_name;

fn int_lit(text: &str) -> Expr {
    Expr::Literal { kind: LitKind::Int, text: text.to_string() }
}

fn name_binding(name: &str, value: Expr) -> Binding {
    Binding::AttrpathValue { path: vec![Attr::Name(name.to_string())], value: Box::new(value) }
}

fn reference(name: &str) -> Expr {
    Expr::Ref { name: name.to_string() }
}

#[test]
fn test() {
    println!("{}", rt_name("abc"));
}

#[test]
fn rt_name_is_namespaced() {
    assert_eq!(rt_name("abc"), "__12345_runtime.abc");
}

#[test]
fn int_literal_compiles_deterministically() {
    let e = int_lit("123456789012345678901234567890");
    let once = codegen(&e).unwrap();
    let twice = codegen(&e).unwrap();
    assert_eq!(once, twice);
    assert_eq!(once, "123456789012345678901234567890n");
}

#[test]
fn float_and_uri_literals() {
    let f = Expr::Literal { kind: LitKind::Float, text: "1.5".to_string() };
    assert_eq!(codegen(&f).unwrap(), "1.5");
    let u = Expr::Literal { kind: LitKind::Uri, text: "http://x".to_string() };
    assert_eq!(codegen(&u).unwrap(), "\"http://x\"");
}

#[test]
fn path_literal_goes_through_resolver() {
    let p = Expr::Literal { kind: LitKind::Path, text: "./a".to_string() };
    assert_eq!(codegen(&p).unwrap(), "__12345_runtime.resolvePath(\"./a\")");
}

#[test]
fn binary_op_passes_left_before_right() {
    let e = Expr::BinaryOp {
        op: BinOpKind::Sub,
        lhs: Box::new(int_lit("1")),
        rhs: Box::new(int_lit("2")),
    };
    assert_eq!(codegen(&e).unwrap(), "__12345_runtime.sub(1n,2n)");
}

#[test]
fn unary_op_delegates() {
    let e = Expr::UnaryOp { op: UnOpKind::Negate, expr: Box::new(int_lit("1")) };
    assert_eq!(codegen(&e).unwrap(), "__12345_runtime.negate(1n)");
}

#[test]
fn apply_defers_the_argument() {
    let e = Expr::Apply { func: Box::new(reference("f")), arg: Box::new(int_lit("1")) };
    assert_eq!(
        codegen(&e).unwrap(),
        "__12345_runtime.lookup(\"f\",[]).call(null,__12345_runtime.newThunk(() => 1n))"
    );
}

#[test]
fn assertion_checks_before_body() {
    let e = Expr::Assert { cond: Box::new(int_lit("1")), body: Box::new(int_lit("2")) };
    assert_eq!(codegen(&e).unwrap(), "(() => {assert(1n);return 2n})()");
}

#[test]
fn conditional_branches_natively() {
    let e = Expr::IfThenElse {
        cond: Box::new(int_lit("1")),
        then_body: Box::new(int_lit("2")),
        else_body: Box::new(int_lit("3")),
    };
    assert_eq!(codegen(&e).unwrap(), "(() => {if (1n) { return 2n} else { return 3n}})()");
}

#[test]
fn paren_is_transparent() {
    let e = Expr::Paren { inner: Box::new(int_lit("7")) };
    assert_eq!(codegen(&e).unwrap(), "7n");
}

#[test]
fn list_defers_every_element() {
    let e = Expr::List { elements: vec![int_lit("1"), int_lit("2"), int_lit("3")] };
    assert_eq!(
        codegen(&e).unwrap(),
        "[__12345_runtime.newThunk(() => 1n),__12345_runtime.newThunk(() => 2n),__12345_runtime.newThunk(() => 3n),]"
    );
}

#[test]
fn rec_attrset_aliases_siblings() {
    let e = Expr::AttrSet {
        is_let: false,
        is_rec: true,
        bindings: vec![
            name_binding("a", int_lit("1")),
            name_binding(
                "b",
                Expr::BinaryOp {
                    op: BinOpKind::Add,
                    lhs: Box::new(reference("a")),
                    rhs: Box::new(int_lit("1")),
                },
            ),
        ],
    };
    assert_eq!(
        codegen(&e).unwrap(),
        "(new function() {self.a = __12345_runtime.newThunk(() => 1n);let a = self.a;self.b = __12345_runtime.newThunk(() => __12345_runtime.add(__12345_runtime.force(a),1n));let b = self.b;})"
    );
}

#[test]
fn with_falls_back_by_name() {
    let e = Expr::With {
        env: Box::new(Expr::AttrSet {
            is_let: false,
            is_rec: false,
            bindings: vec![name_binding("x", int_lit("1"))],
        }),
        body: Box::new(Expr::BinaryOp {
            op: BinOpKind::Add,
            lhs: Box::new(reference("x")),
            rhs: Box::new(int_lit("1")),
        }),
    };
    assert_eq!(
        codegen(&e).unwrap(),
        "(() => {const __12345_with_0 = __12345_runtime.newThunk(() => (new function() {self.x = __12345_runtime.newThunk(() => 1n);}));return __12345_runtime.add(__12345_runtime.lookup(\"x\",[__12345_with_0,]),1n)})()"
    );
}

#[test]
fn lexical_binding_wins_over_with() {
    let e = Expr::Lambda {
        param: Param::Ident("x".to_string()),
        body: Box::new(Expr::With {
            env: Box::new(Expr::AttrSet { is_let: false, is_rec: false, bindings: vec![] }),
            body: Box::new(reference("x")),
        }),
    };
    assert_eq!(
        codegen(&e).unwrap(),
        "((x) => (() => {const __12345_with_0 = __12345_runtime.newThunk(() => (new function() {}));return __12345_runtime.force(x)})())"
    );
}

#[test]
fn select_with_default_defers_the_default() {
    let e = Expr::Select {
        set: Box::new(Expr::AttrSet { is_let: false, is_rec: false, bindings: vec![] }),
        path: vec![Attr::Name("missing".to_string())],
        default: Some(Box::new(int_lit("5"))),
    };
    assert_eq!(
        codegen(&e).unwrap(),
        "__12345_runtime.select((new function() {}),[\"missing\",],__12345_runtime.newThunk(() => 5n))"
    );
}

#[test]
fn select_without_default_passes_null() {
    let e = Expr::Select {
        set: Box::new(Expr::AttrSet { is_let: false, is_rec: false, bindings: vec![] }),
        path: vec![Attr::Name("a".to_string())],
        default: None,
    };
    assert_eq!(codegen(&e).unwrap(), "__12345_runtime.select((new function() {}),[\"a\",],null)");
}

#[test]
fn has_attr_delegates() {
    let e = Expr::HasAttr {
        set: Box::new(Expr::AttrSet { is_let: false, is_rec: false, bindings: vec![] }),
        path: vec![Attr::Name("a".to_string())],
    };
    assert_eq!(codegen(&e).unwrap(), "__12345_runtime.hasAttr((new function() {}),[\"a\",])");
}

#[test]
fn string_interpolation_concatenates_in_order() {
    let e = Expr::Str {
        parts: vec![
            StringPart::Lit("a".to_string()),
            StringPart::Interp(Box::new(Expr::BinaryOp {
                op: BinOpKind::Add,
                lhs: Box::new(int_lit("1")),
                rhs: Box::new(int_lit("1")),
            })),
            StringPart::Lit("b".to_string()),
        ],
    };
    assert_eq!(
        codegen(&e).unwrap(),
        "__12345_runtime.interpolate([\"a\",__12345_runtime.add(1n,1n),\"b\",])"
    );
}

#[test]
fn indent_string_sheds_common_indentation() {
    let e = Expr::IndentStr { parts: vec![StringPart::Lit("\n  foo\n  bar\n".to_string())] };
    assert_eq!(codegen(&e).unwrap(), "__12345_runtime.interpolate([\"\nfoo\nbar\n\",])");
}

#[test]
fn lambda_with_pattern_checks_and_binds() {
    let e = Expr::Lambda {
        param: Param::Pattern {
            fields: vec![
                PatField { name: "a".to_string(), default: None },
                PatField { name: "b".to_string(), default: Some(Box::new(int_lit("2"))) },
            ],
            open: true,
            alias: Some("args".to_string()),
        },
        body: Box::new(reference("a")),
    };
    assert_eq!(
        codegen(&e).unwrap(),
        "((__12345_arg) => {__12345_runtime.checkPattern(__12345_arg,[\"a\",\"b\",],true);const a = __12345_runtime.formal(__12345_arg,\"a\",null);const b = __12345_runtime.formal(__12345_arg,\"b\",__12345_runtime.newThunk(() => 2n));const args = __12345_arg;return __12345_runtime.force(a)})"
    );
}

#[test]
fn let_in_builds_a_recursive_set_and_selects() {
    let e = Expr::LetIn {
        bindings: vec![name_binding("a", int_lit("1"))],
        body: Box::new(reference("a")),
    };
    assert_eq!(
        codegen(&e).unwrap(),
        "__12345_runtime.select((new function() {self.a = __12345_runtime.newThunk(() => 1n);let a = self.a;self.__12345_let = __12345_runtime.newThunk(() => __12345_runtime.force(a));}),[\"__12345_let\",],null)"
    );
}

#[test]
fn inherit_copies_from_enclosing_scope() {
    let e = Expr::AttrSet {
        is_let: false,
        is_rec: false,
        bindings: vec![Binding::Inherit { from: None, attrs: vec![Attr::Name("x".to_string())] }],
    };
    assert_eq!(
        codegen(&e).unwrap(),
        "(new function() {self.x = __12345_runtime.newThunk(() => __12345_runtime.lookup(\"x\",[]));})"
    );
}

#[test]
fn inherit_from_source_selects() {
    let e = Expr::AttrSet {
        is_let: false,
        is_rec: false,
        bindings: vec![Binding::Inherit {
            from: Some(Box::new(Expr::AttrSet { is_let: false, is_rec: false, bindings: vec![] })),
            attrs: vec![Attr::Name("y".to_string())],
        }],
    };
    assert_eq!(
        codegen(&e).unwrap(),
        "(new function() {self.y = __12345_runtime.newThunk(() => __12345_runtime.select((new function() {}),[\"y\",],null));})"
    );
}

#[test]
fn legacy_let_attrset_aborts() {
    let e = Expr::AttrSet { is_let: true, is_rec: false, bindings: vec![] };
    assert_eq!(codegen(&e), Err(Flaw::LetAttrSet));
}

#[test]
fn dynamic_name_in_inherit_aborts() {
    let e = Expr::AttrSet {
        is_let: false,
        is_rec: false,
        bindings: vec![Binding::Inherit {
            from: None,
            attrs: vec![Attr::Dynamic(Box::new(int_lit("1")))],
        }],
    };
    assert_eq!(codegen(&e), Err(Flaw::InheritAttr));
}

#[test]
fn string_name_in_inherit_aborts() {
    let e = Expr::AttrSet {
        is_let: false,
        is_rec: false,
        bindings: vec![Binding::Inherit {
            from: None,
            attrs: vec![Attr::Str(vec![StringPart::Lit("x".to_string())])],
        }],
    };
    assert_eq!(codegen(&e), Err(Flaw::InheritAttr));
}

#[test]
fn empty_attribute_path_aborts() {
    let e = Expr::AttrSet {
        is_let: false,
        is_rec: false,
        bindings: vec![Binding::AttrpathValue { path: vec![], value: Box::new(int_lit("1")) }],
    };
    assert_eq!(codegen(&e), Err(Flaw::EmptyAttrPath));
}

#[test]
fn dynamic_key_is_forced_at_install() {
    let e = Expr::AttrSet {
        is_let: false,
        is_rec: false,
        bindings: vec![Binding::AttrpathValue {
            path: vec![Attr::Dynamic(Box::new(Expr::Str {
                parts: vec![StringPart::Lit("k".to_string())],
            }))],
            value: Box::new(int_lit("1")),
        }],
    };
    assert_eq!(
        codegen(&e).unwrap(),
        "(new function() {self[__12345_runtime.interpolate([\"k\",])] = __12345_runtime.newThunk(() => 1n);})"
    );
}

#[test]
fn nested_path_goes_through_assign_path() {
    let e = Expr::AttrSet {
        is_let: false,
        is_rec: false,
        bindings: vec![Binding::AttrpathValue {
            path: vec![Attr::Name("a".to_string()), Attr::Name("b".to_string())],
            value: Box::new(int_lit("1")),
        }],
    };
    assert_eq!(
        codegen(&e).unwrap(),
        "(new function() {__12345_runtime.assignPath(self,[\"a\",\"b\",],__12345_runtime.newThunk(() => 1n));})"
    );
}

#[test]
fn error_inside_a_subexpression_aborts_whole_compile() {
    let e = Expr::List {
        elements: vec![int_lit("1"), Expr::AttrSet { is_let: true, is_rec: false, bindings: vec![] }],
    };
    assert_eq!(codegen(&e), Err(Flaw::LetAttrSet));
}
