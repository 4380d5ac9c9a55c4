//! Rust types, default values, constants and variable initialisers for CAL
//! declarations.
use vstd::prelude::*;

use crate::ast::{Expr, Type, VarDef};
use crate::codegen::common::expr::{emit_expr, expr_text};
use crate::codegen::common::names::{ident, ident_text};
use crate::codegen::common::scope::NameSet;
use crate::text::{cat2, cat3, join, join_strings, owned, str_eq, views};

verus! {

/// The Rust type of a CAL type: lists become `Vec`, `bool` and strings keep
/// their kind, floating types become `f64` and every other type `i64`.
pub open spec fn rust_type_text(t: Type) -> Seq<char>
    decreases t,
{
    match t.list {
        Some(inner) => "Vec<"@ + rust_type_text(*inner) + ">"@,
        None => {
            if t.name@ == "bool"@ {
                "bool"@
            } else if t.name@ == "String"@ || t.name@ == "string"@ {
                "String"@
            } else if t.name@ == "float"@ || t.name@ == "double"@ || t.name@ == "half"@ {
                "f64"@
            } else {
                "i64"@
            }
        },
    }
}

/// The Rust type of a CAL type.
pub fn rust_type(t: &Type) -> (res: String)
    ensures
        res@ == rust_type_text(*t),
    decreases *t,
{
    match &t.list {
        Some(inner) => {
            let i = rust_type(inner);
            cat3("Vec<", i.as_str(), ">")
        },
        None => {
            let n = t.name.as_str();
            if str_eq(n, "bool") {
                owned("bool")
            } else if str_eq(n, "String") || str_eq(n, "string") {
                owned("String")
            } else if str_eq(n, "float") || str_eq(n, "double") || str_eq(n, "half") {
                owned("f64")
            } else {
                owned("i64")
            }
        },
    }
}

/// The zero value of a CAL type; a sized list is filled with the zero value of
/// its elements.
pub open spec fn default_value_text(t: Type) -> Seq<char>
    decreases t,
{
    match t.list {
        Some(inner) => match t.size {
            Some(size) => "vec!["@ + default_value_text(*inner) + "; ("@ + expr_text(*size, Set::empty(), Set::empty())
                + ") as usize]"@,
            None => "Vec::new()"@,
        },
        None => {
            if t.name@ == "bool"@ {
                "false"@
            } else if t.name@ == "String"@ || t.name@ == "string"@ {
                "String::new()"@
            } else if t.name@ == "float"@ || t.name@ == "double"@ || t.name@ == "half"@ {
                "0.0"@
            } else {
                "0"@
            }
        },
    }
}

/// The zero value of a CAL type.
pub fn default_value(t: &Type) -> (res: String)
    ensures
        res@ == default_value_text(*t),
    decreases *t,
{
    match &t.list {
        Some(inner) => match &t.size {
            Some(size) => {
                let d = default_value(inner);
                let empty1 = NameSet::new();
                let empty2 = NameSet::new();
                let s = emit_expr(size, &empty1, &empty2);
                let mut out = cat3("vec![", d.as_str(), "; (");
                out.append(s.as_str());
                out.append(") as usize]");
                out
            },
            None => owned("Vec::new()"),
        },
        None => {
            let n = t.name.as_str();
            if str_eq(n, "bool") {
                owned("false")
            } else if str_eq(n, "String") || str_eq(n, "string") {
                owned("String::new()")
            } else if str_eq(n, "float") || str_eq(n, "double") || str_eq(n, "half") {
                owned("0.0")
            } else {
                owned("0")
            }
        },
    }
}

/// `ty` wrapped in `wrap_open`/`wrap_close` once per dimension.
pub open spec fn wrapped_type(ty: Seq<char>, dims: nat, wrap_open: Seq<char>, wrap_close: Seq<char>) -> Seq<char>
    decreases dims,
{
    if dims == 0 {
        ty
    } else {
        wrap_open + wrapped_type(ty, (dims - 1) as nat, wrap_open, wrap_close) + wrap_close
    }
}

fn wrap_type(ty: String, dims: usize, wrap_open: &str, wrap_close: &str) -> (res: String)
    ensures
        res@ == wrapped_type(ty@, dims as nat, wrap_open@, wrap_close@),
{
    let mut out = ty;
    let ghost t = out@;
    let mut i: usize = 0;
    while i < dims
        invariant
            0 <= i <= dims,
            out@ == wrapped_type(t, i as nat, wrap_open@, wrap_close@),
        decreases dims - i,
    {
        let mut next = cat2(wrap_open, out.as_str());
        next.append(wrap_close);
        out = next;
        i = i + 1;
    }
    out
}

/// The Rust type of a variable: its element type in one `Vec` per array dimension.
pub open spec fn var_rust_type_text(v: VarDef) -> Seq<char> {
    wrapped_type(rust_type_text(v.typ), v.arrays.len() as nat, "Vec<"@, ">"@)
}

/// The Rust type of a variable.
pub fn var_rust_type(v: &VarDef) -> (res: String)
    ensures
        res@ == var_rust_type_text(*v),
{
    let t = rust_type(&v.typ);
    wrap_type(t, v.arrays.len(), "Vec<", ">")
}

/// `base` filled into nested vectors, the first dimension outermost.
pub open spec fn array_default_text(base: Seq<char>, dims: Seq<Expr>) -> Seq<char>
    decreases dims.len(),
{
    if dims.len() == 0 {
        base
    } else {
        "vec!["@ + array_default_text(base, dims.subrange(1, dims.len() as int)) + "; ("@ + expr_text(
            dims[0],
            Set::empty(),
            Set::empty(),
        ) + ") as usize]"@
    }
}

/// The zero value of a variable, arrays filled with the zero value of the element type.
pub open spec fn var_default_text(v: VarDef) -> Seq<char> {
    array_default_text(default_value_text(v.typ), v.arrays@)
}

/// The zero value of a variable.
pub fn var_default(v: &VarDef) -> (res: String)
    ensures
        res@ == var_default_text(*v),
{
    let mut val = default_value(&v.typ);
    let ghost base = val@;
    let n = v.arrays.len();
    let mut i: usize = n;
    let empty1 = NameSet::new();
    let empty2 = NameSet::new();
    while i > 0
        invariant
            0 <= i <= n,
            n == v.arrays@.len(),
            empty1@ == Set::<Seq<char>>::empty(),
            empty2@ == Set::<Seq<char>>::empty(),
            val@ == array_default_text(base, v.arrays@.subrange(i as int, n as int)),
        decreases i,
    {
        i = i - 1;
        let d = emit_expr(&v.arrays[i], &empty1, &empty2);
        let mut next = cat2("vec![", val.as_str());
        next.append("; (");
        next.append(d.as_str());
        next.append(") as usize]");
        assert(v.arrays@.subrange(i as int, n as int).subrange(1, (n - i) as int) =~= v.arrays@.subrange(
            i + 1,
            n as int,
        ));
        val = next;
    }
    assert(v.arrays@.subrange(0, n as int) =~= v.arrays@);
    val
}

/// The initial value of a variable: its initialiser, or its zero value.
pub open spec fn var_init_text(v: VarDef) -> Seq<char> {
    match v.assign {
        Some(e) => expr_text(e, Set::empty(), Set::empty()),
        None => var_default_text(v),
    }
}

/// The initial value of a variable.
pub fn var_init(v: &VarDef) -> (res: String)
    ensures
        res@ == var_init_text(*v),
{
    match &v.assign {
        Some(e) => {
            let empty1 = NameSet::new();
            let empty2 = NameSet::new();
            emit_expr(e, &empty1, &empty2)
        },
        None => var_default(v),
    }
}

/// The initialiser of a constant array: nested list literals become nested
/// slice literals.
pub open spec fn const_array_text(e: Expr) -> Seq<char>
    decreases e, 1int,
{
    match e {
        Expr::ListComprehension { expressions, generators } => {
            if generators.len() == 0 {
                "&["@ + join(const_array_texts(expressions@), ", "@) + "]"@
            } else {
                expr_text(e, Set::empty(), Set::empty())
            }
        },
        _ => expr_text(e, Set::empty(), Set::empty()),
    }
}

/// The constant-array texts of a list of expressions.
pub open spec fn const_array_texts(es: Seq<Expr>) -> Seq<Seq<char>>
    decreases es, 0int,
{
    if es.len() == 0 {
        Seq::empty()
    } else {
        const_array_texts(es.subrange(0, es.len() - 1)).push(const_array_text(es.last()))
    }
}

/// The initialiser of a constant array.
pub fn const_array_value(expr: &Expr) -> (res: String)
    ensures
        res@ == const_array_text(*expr),
    decreases *expr, 1int,
{
    if let Expr::ListComprehension { expressions, generators } = expr {
        if generators.len() == 0 {
            let parts = const_array_values(expressions);
            let joined = join_strings(&parts, ", ");
            return cat3("&[", joined.as_str(), "]");
        }
    }
    let empty1 = NameSet::new();
    let empty2 = NameSet::new();
    emit_expr(expr, &empty1, &empty2)
}

fn const_array_values(es: &Vec<Expr>) -> (res: Vec<String>)
    ensures
        views(res@) == const_array_texts(es@),
    decreases es@, 0int,
{
    let mut out: Vec<String> = Vec::new();
    let mut i: usize = 0;
    while i < es.len()
        invariant
            0 <= i <= es.len(),
            views(out@) == const_array_texts(es@.take(i as int)),
        decreases es.len() - i,
    {
        let t = const_array_value(&es[i]);
        let ghost before = out@;
        out.push(t);
        assert(es@.take(i + 1).subrange(0, i as int) =~= es@.take(i as int));
        assert(views(out@) =~= views(before).push(t@));
        i = i + 1;
    }
    assert(es@.take(es.len() as int) =~= es@);
    out
}

/// A unit-level declaration: arrays become `static` slices, everything else a `const`.
pub open spec fn const_text(v: VarDef) -> Seq<char> {
    if v.arrays.len() > 0 {
        let ty = wrapped_type(rust_type_text(v.typ), v.arrays.len() as nat, "&["@, "]"@);
        let value = match v.assign {
            Some(e) => const_array_text(e),
            None => "&[]"@,
        };
        "static "@ + ident_text(v.name@) + ": "@ + ty + " = "@ + value + ";\n"@
    } else {
        let value = match v.assign {
            Some(e) => expr_text(e, Set::empty(), Set::empty()),
            None => default_value_text(v.typ),
        };
        "const "@ + ident_text(v.name@) + ": "@ + rust_type_text(v.typ) + " = "@ + value + ";\n"@
    }
}

/// A unit-level declaration.
pub fn emit_const(v: &VarDef) -> (res: String)
    ensures
        res@ == const_text(*v),
{
    let name = ident(v.name.as_str());
    if v.arrays.len() > 0 {
        let t = rust_type(&v.typ);
        let ty = wrap_type(t, v.arrays.len(), "&[", "]");
        let value = match &v.assign {
            Some(e) => const_array_value(e),
            None => owned("&[]"),
        };
        let mut out = cat3("static ", name.as_str(), ": ");
        out.append(ty.as_str());
        out.append(" = ");
        out.append(value.as_str());
        out.append(";\n");
        return out;
    }
    let value = match &v.assign {
        Some(e) => {
            let empty1 = NameSet::new();
            let empty2 = NameSet::new();
            emit_expr(e, &empty1, &empty2)
        },
        None => default_value(&v.typ),
    };
    let ty = rust_type(&v.typ);
    let mut out = cat3("const ", name.as_str(), ": ");
    out.append(ty.as_str());
    out.append(" = ");
    out.append(value.as_str());
    out.append(";\n");
    out
}

/// The `Debug` rendering of a string: the text of a Rust string literal for it.
pub uninterp spec fn debug_str(s: Seq<char>) -> Seq<char>;

/// Renders `s` as `format!("{s:?}")` does.
#[verifier::external_body]
fn debug_quoted(s: &str) -> (res: String)
    ensures
        res@ == debug_str(s@),
{
    format!("{s:?}")
}

/// The value given to an actor parameter: the zero value when none is given,
/// a string literal for string parameters, and the text itself otherwise.
pub open spec fn param_value_text(t: Type, value: Seq<char>) -> Seq<char> {
    if value.len() == 0 {
        default_value_text(t)
    } else if rust_type_text(t) == "String"@ {
        debug_str(value) + ".to_string()"@
    } else {
        value
    }
}

/// The value given to an actor parameter.
pub fn param_value(t: &Type, value: &str) -> (res: String)
    ensures
        res@ == param_value_text(*t, value@),
{
    if value.unicode_len() == 0 {
        return default_value(t);
    }
    let ty = rust_type(t);
    if str_eq(ty.as_str(), "String") {
        let q = debug_quoted(value);
        cat2(q.as_str(), ".to_string()")
    } else {
        owned(value)
    }
}

/// The zero value of an array variable has its first dimension outermost:
/// putting a dimension `d` in front of a variable's dimensions wraps the
/// variable's zero value in `vec![..; (d) as usize]`, so indices below each
/// dimension, taken in order, stay in range; with no dimensions it is the
/// element type's zero value.
pub proof fn array_default_first_dimension_outermost(v: VarDef, w: VarDef)
    requires
        w.typ == v.typ,
        w.arrays@.len() == v.arrays@.len() + 1,
        w.arrays@.subrange(1, w.arrays@.len() as int) == v.arrays@,
    ensures
        var_default_text(w) == "vec!["@ + var_default_text(v) + "; ("@ + expr_text(w.arrays@[0], Set::empty(), Set::empty())
            + ") as usize]"@,
        v.arrays@.len() == 0 ==> var_default_text(v) == default_value_text(v.typ),
{
}

} // verus!
