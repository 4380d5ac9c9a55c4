//! Emission of CAL expressions, statements, functions and procedures as Rust.
use vstd::prelude::*;

use crate::ast::{Expr, Function, Generator, Parameter, Procedure, Stmt, VarDef};
use crate::codegen::common::names::{port_ref, port_ref_text};
use crate::codegen::common::types::{rust_type, rust_type_text, var_default, var_default_text, var_rust_type, var_rust_type_text};
use crate::codegen::common::names::{fsm_variant, fsm_variant_text, ident, ident_text, type_ident};
use crate::codegen::common::scope::NameSet;
use crate::text::{cat2, cat3, concat, join, join_strings, occurs_in, occurs_in_grow, occurs_in_middle, owned, repeat, repeat_string, str_eq, views};

verus! {

/// The Rust operator for a CAL binary operator.
pub open spec fn op_text(op: Seq<char>) -> Seq<char> {
    if op == "="@ {
        "=="@
    } else if op == "and"@ {
        "&&"@
    } else if op == "or"@ {
        "||"@
    } else if op == "not"@ {
        "!"@
    } else if op == "mod"@ {
        "%"@
    } else if op == "div"@ {
        "/"@
    } else {
        op
    }
}

/// The Rust operator for a CAL unary operator.
pub open spec fn unary_text(op: Seq<char>) -> Seq<char> {
    if op == "not"@ {
        "!"@
    } else {
        op
    }
}

/// How a name is reached: locals shadow the actor state, which is reached
/// through `self`; anything else is a free name.
pub open spec fn resolve_text(name: Seq<char>, state: Set<Seq<char>>, locals: Set<Seq<char>>) -> Seq<char> {
    if locals.contains(name) {
        ident_text(name)
    } else if state.contains(name) {
        "self."@ + ident_text(name)
    } else {
        ident_text(name)
    }
}

/// The names bound by generators.
pub open spec fn generator_names(gens: Seq<Generator>) -> Set<Seq<char>> {
    Set::new(|n: Seq<char>| exists|i: int| 0 <= i < gens.len() && #[trigger] gens[i].identifier@ == n)
}

/// A literal: string and character literals as written, others with their sign.
pub open spec fn literal_text(negation: bool, value: Seq<char>) -> Seq<char> {
    if value.len() > 0 && (value[0] == '"' || value[0] == '\'') {
        value
    } else if negation {
        "-"@ + value
    } else {
        value
    }
}

/// `base` followed by one `[(index) as usize]` per index.
pub open spec fn indexed_text(base: Seq<char>, indices: Seq<Expr>, state: Set<Seq<char>>, locals: Set<Seq<char>>) -> Seq<char>
    decreases indices, 0int,
{
    if indices.len() == 0 {
        base
    } else {
        indexed_text(base, indices.subrange(0, indices.len() - 1), state, locals) + "[("@ + expr_text(indices.last(), state, locals) + ") as usize]"@
    }
}

/// The texts of a list of expressions.
pub open spec fn exprs_texts(es: Seq<Expr>, state: Set<Seq<char>>, locals: Set<Seq<char>>) -> Seq<Seq<char>>
    decreases es, 0int,
{
    if es.len() == 0 {
        Seq::empty()
    } else {
        exprs_texts(es.subrange(0, es.len() - 1), state, locals).push(expr_text(es.last(), state, locals))
    }
}

/// The loop headers of a list comprehension.
pub open spec fn comprehension_headers(gens: Seq<Generator>, state: Set<Seq<char>>, locals: Set<Seq<char>>) -> Seq<char>
    decreases gens, 0int,
{
    if gens.len() == 0 {
        Seq::empty()
    } else {
        let g = gens.last();
        comprehension_headers(gens.subrange(0, gens.len() - 1), state, locals) + "for "@ + ident_text(g.identifier@) + " in ("@
            + expr_text(g.start, state, locals) + ")..=("@ + expr_text(g.end, state, locals) + ") { "@
    }
}

/// The pushes of a list comprehension.
pub open spec fn comprehension_pushes(es: Seq<Expr>, state: Set<Seq<char>>, locals: Set<Seq<char>>) -> Seq<char>
    decreases es, 0int,
{
    if es.len() == 0 {
        Seq::empty()
    } else {
        comprehension_pushes(es.subrange(0, es.len() - 1), state, locals) + "__lc.push("@ + expr_text(es.last(), state, locals) + "); "@
    }
}

/// The Rust text of a CAL expression, with `state` the actor's state variables
/// and `locals` the names bound locally.
pub open spec fn expr_text(e: Expr, state: Set<Seq<char>>, locals: Set<Seq<char>>) -> Seq<char>
    decreases e, 1int,
{
    match e {
        Expr::Paren(inner) => "("@ + expr_text(*inner, state, locals) + ")"@,
        Expr::BinOp { op, left, right } => expr_text(*left, state, locals) + " "@ + op_text(op@) + " "@ + expr_text(*right, state, locals),
        Expr::Literal { negation, value } => literal_text(negation, value@),
        Expr::Identifier { name, unary_left, indices, call, .. } => {
            let base = match call {
                Some(args) => ident_text(name@) + "("@ + join(exprs_texts(args@, state, locals), ", "@) + ")"@,
                None => resolve_text(name@, state, locals),
            };
            let indexed = indexed_text(base, indices@, state, locals);
            match unary_left {
                Some(op) => unary_text(op@) + indexed,
                None => indexed,
            }
        },
        Expr::FsmEnumElement { enum_name, element } => ident_text(enum_name@) + "::"@ + fsm_variant_text(element@),
        Expr::PortPreview { port, index, .. } => match index {
            Some(i) => ident_text(port@) + "[("@ + expr_text(*i, state, locals) + ") as usize]"@,
            None => ident_text(port@) + "[0]"@,
        },
        Expr::PortSize { port } => "("@ + ident_text(port@) + ".len() as i64)"@,
        Expr::PortFree { .. } => "0"@,
        Expr::Ternary { cond, then, els } => "if "@ + expr_text(*cond, state, locals) + " { "@ + expr_text(*then, state, locals)
            + " } else { "@ + expr_text(*els, state, locals) + " }"@,
        Expr::ListComprehension { expressions, generators } => {
            if generators.len() == 0 {
                "vec!["@ + join(exprs_texts(expressions@, state, locals), ", "@) + "]"@
            } else {
                let inner = locals.union(generator_names(generators@));
                "{ let mut __lc = Vec::new(); "@ + comprehension_headers(generators@, state, inner)
                    + comprehension_pushes(expressions@, state, inner) + repeat("} "@, generators.len() as nat) + "__lc }"@
            }
        },
    }
}


/// Adding the names of one more generator.
pub proof fn generator_names_step(gens: Seq<Generator>, i: int)
    requires
        0 <= i < gens.len(),
    ensures
        generator_names(gens.take(i + 1)) == generator_names(gens.take(i)).insert(gens[i].identifier@),
{
    let a = generator_names(gens.take(i + 1));
    let b = generator_names(gens.take(i)).insert(gens[i].identifier@);
    assert forall|n: Seq<char>| #[trigger] a.contains(n) == b.contains(n) by {
        if a.contains(n) {
            let j = choose|j: int| 0 <= j < gens.take(i + 1).len() && #[trigger] gens.take(i + 1)[j].identifier@ == n;
            if j < i {
                assert(gens.take(i)[j].identifier@ == n);
            }
        }
        if b.contains(n) {
            if n == gens[i].identifier@ {
                assert(gens.take(i + 1)[i].identifier@ == n);
            } else {
                let j = choose|j: int| 0 <= j < gens.take(i).len() && #[trigger] gens.take(i)[j].identifier@ == n;
                assert(gens.take(i + 1)[j].identifier@ == n);
            }
        }
    }
    assert(a =~= b);
}

/// The Rust operator for a CAL binary operator.
pub fn map_op(op: &str) -> (res: &str)
    ensures
        res@ == op_text(op@),
{
    if str_eq(op, "=") {
        "=="
    } else if str_eq(op, "and") {
        "&&"
    } else if str_eq(op, "or") {
        "||"
    } else if str_eq(op, "not") {
        "!"
    } else if str_eq(op, "mod") {
        "%"
    } else if str_eq(op, "div") {
        "/"
    } else {
        op
    }
}

/// The Rust operator for a CAL unary operator.
pub fn map_unary(op: &str) -> (res: &str)
    ensures
        res@ == unary_text(op@),
{
    if str_eq(op, "not") {
        "!"
    } else {
        op
    }
}

/// How a name is reached from generated code.
pub fn resolve(name: &str, state: &NameSet, locals: &NameSet) -> (res: String)
    ensures
        res@ == resolve_text(name@, state@, locals@),
{
    if locals.contains(name) {
        ident(name)
    } else if state.contains(name) {
        let i = ident(name);
        cat2("self.", i.as_str())
    } else {
        ident(name)
    }
}

/// The locals extended with the names bound by `gens`.
pub fn with_generator_names(locals: &NameSet, gens: &Vec<Generator>) -> (res: NameSet)
    ensures
        res@ == locals@.union(generator_names(gens@)),
{
    let mut inner = locals.duplicate();
    let mut i: usize = 0;
    while i < gens.len()
        invariant
            0 <= i <= gens.len(),
            inner@ == locals@.union(generator_names(gens@.take(i as int))),
        decreases gens.len() - i,
    {
        proof {
            generator_names_step(gens@, i as int);
        }
        inner.insert(gens[i].identifier.as_str());
        assert(inner@ =~= locals@.union(generator_names(gens@.take(i + 1))));
        i = i + 1;
    }
    assert(gens@.take(gens.len() as int) =~= gens@);
    inner
}

/// The texts of a list of expressions.
pub fn emit_exprs(es: &Vec<Expr>, state: &NameSet, locals: &NameSet) -> (res: Vec<String>)
    ensures
        views(res@) == exprs_texts(es@, state@, locals@),
    decreases es@, 0int,
{
    let mut out: Vec<String> = Vec::new();
    let mut i: usize = 0;
    while i < es.len()
        invariant
            0 <= i <= es.len(),
            views(out@) == exprs_texts(es@.take(i as int), state@, locals@),
        decreases es.len() - i,
    {
        let t = emit_expr(&es[i], state, locals);
        let ghost before = out@;
        out.push(t);
        assert(es@.take(i + 1).subrange(0, i as int) =~= es@.take(i as int));
        assert(views(out@) =~= views(before).push(t@));
        i = i + 1;
    }
    assert(es@.take(es.len() as int) =~= es@);
    out
}

/// `base` followed by one `[(index) as usize]` per index.
pub fn emit_indices(base: String, indices: &Vec<Expr>, state: &NameSet, locals: &NameSet) -> (res: String)
    ensures
        res@ == indexed_text(base@, indices@, state@, locals@),
    decreases indices@, 0int,
{
    let ghost b = base@;
    let mut out = base;
    let mut i: usize = 0;
    while i < indices.len()
        invariant
            0 <= i <= indices.len(),
            out@ == indexed_text(b, indices@.take(i as int), state@, locals@),
        decreases indices.len() - i,
    {
        let t = emit_expr(&indices[i], state, locals);
        out.append("[(");
        out.append(t.as_str());
        out.append(") as usize]");
        assert(indices@.take(i + 1).subrange(0, i as int) =~= indices@.take(i as int));
        i = i + 1;
    }
    assert(indices@.take(indices.len() as int) =~= indices@);
    out
}

fn emit_comprehension_headers(gens: &Vec<Generator>, state: &NameSet, locals: &NameSet) -> (res: String)
    ensures
        res@ == comprehension_headers(gens@, state@, locals@),
    decreases gens@, 0int,
{
    let mut out = String::new();
    let mut i: usize = 0;
    while i < gens.len()
        invariant
            0 <= i <= gens.len(),
            out@ == comprehension_headers(gens@.take(i as int), state@, locals@),
        decreases gens.len() - i,
    {
        let g = &gens[i];
        let id = ident(g.identifier.as_str());
        let start = emit_expr(&g.start, state, locals);
        let end = emit_expr(&g.end, state, locals);
        out.append("for ");
        out.append(id.as_str());
        out.append(" in (");
        out.append(start.as_str());
        out.append(")..=(");
        out.append(end.as_str());
        out.append(") { ");
        assert(gens@.take(i + 1).subrange(0, i as int) =~= gens@.take(i as int));
        i = i + 1;
    }
    assert(gens@.take(gens.len() as int) =~= gens@);
    out
}

fn emit_comprehension_pushes(es: &Vec<Expr>, state: &NameSet, locals: &NameSet) -> (res: String)
    ensures
        res@ == comprehension_pushes(es@, state@, locals@),
    decreases es@, 0int,
{
    let mut out = String::new();
    let mut i: usize = 0;
    while i < es.len()
        invariant
            0 <= i <= es.len(),
            out@ == comprehension_pushes(es@.take(i as int), state@, locals@),
        decreases es.len() - i,
    {
        let t = emit_expr(&es[i], state, locals);
        out.append("__lc.push(");
        out.append(t.as_str());
        out.append("); ");
        assert(es@.take(i + 1).subrange(0, i as int) =~= es@.take(i as int));
        i = i + 1;
    }
    assert(es@.take(es.len() as int) =~= es@);
    out
}

/// The Rust text of a CAL expression.
pub fn emit_expr(expr: &Expr, state: &NameSet, locals: &NameSet) -> (res: String)
    ensures
        res@ == expr_text(*expr, state@, locals@),
    decreases *expr, 1int,
{
    match expr {
        Expr::Paren(inner) => {
            let t = emit_expr(inner, state, locals);
            cat3("(", t.as_str(), ")")
        },
        Expr::BinOp { op, left, right } => {
            let l = emit_expr(left, state, locals);
            let r = emit_expr(right, state, locals);
            let mut out = cat3(l.as_str(), " ", map_op(op.as_str()));
            out.append(" ");
            out.append(r.as_str());
            out
        },
        Expr::Literal { negation, value } => {
            let v = value.as_str();
            let quoted = if v.unicode_len() > 0 {
                let c = v.get_char(0);
                c == '"' || c == '\''
            } else {
                false
            };
            if quoted {
                owned(v)
            } else if *negation {
                cat2("-", v)
            } else {
                owned(v)
            }
        },
        Expr::Identifier { name, unary_left, indices, call, .. } => {
            let base = match call {
                Some(args) => {
                    let rendered = emit_exprs(args, state, locals);
                    let joined = join_strings(&rendered, ", ");
                    let id = ident(name.as_str());
                    let mut b = cat3(id.as_str(), "(", joined.as_str());
                    b.append(")");
                    b
                },
                None => resolve(name.as_str(), state, locals),
            };
            let indexed = emit_indices(base, indices, state, locals);
            match unary_left {
                Some(op) => cat2(map_unary(op.as_str()), indexed.as_str()),
                None => indexed,
            }
        },
        Expr::FsmEnumElement { enum_name, element } => {
            let t = type_ident(enum_name.as_str());
            let v = fsm_variant(element.as_str());
            cat3(t.as_str(), "::", v.as_str())
        },
        Expr::PortPreview { port, index, .. } => {
            let p = ident(port.as_str());
            match index {
                Some(i) => {
                    let t = emit_expr(i, state, locals);
                    let mut out = cat3(p.as_str(), "[(", t.as_str());
                    out.append(") as usize]");
                    out
                },
                None => cat2(p.as_str(), "[0]"),
            }
        },
        Expr::PortSize { port } => {
            let p = ident(port.as_str());
            cat3("(", p.as_str(), ".len() as i64)")
        },
        Expr::PortFree { .. } => owned("0"),
        Expr::Ternary { cond, then, els } => {
            let c = emit_expr(cond, state, locals);
            let t = emit_expr(then, state, locals);
            let e = emit_expr(els, state, locals);
            let mut out = cat3("if ", c.as_str(), " { ");
            out.append(t.as_str());
            out.append(" } else { ");
            out.append(e.as_str());
            out.append(" }");
            out
        },
        Expr::ListComprehension { expressions, generators } => {
            if generators.len() == 0 {
                let rendered = emit_exprs(expressions, state, locals);
                let joined = join_strings(&rendered, ", ");
                cat3("vec![", joined.as_str(), "]")
            } else {
                let inner = with_generator_names(locals, generators);
                let headers = emit_comprehension_headers(generators, state, &inner);
                let pushes = emit_comprehension_pushes(expressions, state, &inner);
                let closers = repeat_string("} ", generators.len());
                let mut out = cat3("{ let mut __lc = Vec::new(); ", headers.as_str(), pushes.as_str());
                out.append(closers.as_str());
                out.append("__lc }");
                out
            }
        },
    }
}


/// The names declared by variable definitions.
pub open spec fn var_names(vars: Seq<VarDef>) -> Set<Seq<char>> {
    Set::new(|n: Seq<char>| exists|i: int| 0 <= i < vars.len() && #[trigger] vars[i].name@ == n)
}

/// The names of parameters.
pub open spec fn param_names(ps: Seq<Parameter>) -> Set<Seq<char>> {
    Set::new(|n: Seq<char>| exists|i: int| 0 <= i < ps.len() && #[trigger] ps[i].name@ == n)
}

/// Adding the name of one more variable.
pub proof fn var_names_step(vars: Seq<VarDef>, i: int)
    requires
        0 <= i < vars.len(),
    ensures
        var_names(vars.take(i + 1)) == var_names(vars.take(i)).insert(vars[i].name@),
{
    let a = var_names(vars.take(i + 1));
    let b = var_names(vars.take(i)).insert(vars[i].name@);
    assert forall|n: Seq<char>| #[trigger] a.contains(n) == b.contains(n) by {
        if a.contains(n) {
            let j = choose|j: int| 0 <= j < vars.take(i + 1).len() && #[trigger] vars.take(i + 1)[j].name@ == n;
            if j < i {
                assert(vars.take(i)[j].name@ == n);
            }
        }
        if b.contains(n) {
            if n == vars[i].name@ {
                assert(vars.take(i + 1)[i].name@ == n);
            } else {
                let j = choose|j: int| 0 <= j < vars.take(i).len() && #[trigger] vars.take(i)[j].name@ == n;
                assert(vars.take(i + 1)[j].name@ == n);
            }
        }
    }
    assert(a =~= b);
}

/// Adding the name of one more parameter.
pub proof fn param_names_step(ps: Seq<Parameter>, i: int)
    requires
        0 <= i < ps.len(),
    ensures
        param_names(ps.take(i + 1)) == param_names(ps.take(i)).insert(ps[i].name@),
{
    let a = param_names(ps.take(i + 1));
    let b = param_names(ps.take(i)).insert(ps[i].name@);
    assert forall|n: Seq<char>| #[trigger] a.contains(n) == b.contains(n) by {
        if a.contains(n) {
            let j = choose|j: int| 0 <= j < ps.take(i + 1).len() && #[trigger] ps.take(i + 1)[j].name@ == n;
            if j < i {
                assert(ps.take(i)[j].name@ == n);
            }
        }
        if b.contains(n) {
            if n == ps[i].name@ {
                assert(ps.take(i + 1)[i].name@ == n);
            } else {
                let j = choose|j: int| 0 <= j < ps.take(i).len() && #[trigger] ps.take(i)[j].name@ == n;
                assert(ps.take(i + 1)[j].name@ == n);
            }
        }
    }
    assert(a =~= b);
}

/// The locals extended with the names declared by `vars`.
pub fn with_var_names(locals: &NameSet, vars: &Vec<VarDef>) -> (res: NameSet)
    ensures
        res@ == locals@.union(var_names(vars@)),
{
    let mut inner = locals.duplicate();
    let mut i: usize = 0;
    while i < vars.len()
        invariant
            0 <= i <= vars.len(),
            inner@ == locals@.union(var_names(vars@.take(i as int))),
        decreases vars.len() - i,
    {
        proof {
            var_names_step(vars@, i as int);
        }
        inner.insert(vars[i].name.as_str());
        assert(inner@ =~= locals@.union(var_names(vars@.take(i + 1))));
        i = i + 1;
    }
    assert(vars@.take(vars.len() as int) =~= vars@);
    inner
}

/// The names of the parameters, as a set of locals.
pub fn param_name_set(ps: &Vec<Parameter>) -> (res: NameSet)
    ensures
        res@ == param_names(ps@),
{
    let mut set = NameSet::new();
    let mut i: usize = 0;
    while i < ps.len()
        invariant
            0 <= i <= ps.len(),
            set@ == param_names(ps@.take(i as int)),
        decreases ps.len() - i,
    {
        proof {
            param_names_step(ps@, i as int);
        }
        set.insert(ps[i].name.as_str());
        i = i + 1;
    }
    assert(ps@.take(ps.len() as int) =~= ps@);
    set
}

/// One local variable declaration, initialised with its initialiser or zero value.
pub open spec fn vardef_text(v: VarDef, state: Set<Seq<char>>, locals: Set<Seq<char>>) -> Seq<char> {
    let init = match v.assign {
        Some(e) => expr_text(e, state, locals),
        None => var_default_text(v),
    };
    "            let mut "@ + ident_text(v.name@) + ": "@ + var_rust_type_text(v) + " = "@ + init + ";\n"@
}

/// Local variable declarations, one per line.
pub open spec fn vardefs_text(vars: Seq<VarDef>, state: Set<Seq<char>>, locals: Set<Seq<char>>) -> Seq<char> {
    concat(vars.map_values(|v: VarDef| vardef_text(v, state, locals)))
}

/// Local variable declarations, one per line.
#[verifier::spinoff_prover]
pub fn emit_vardefs(vars: &Vec<VarDef>, state: &NameSet, locals: &NameSet) -> (res: String)
    ensures
        res@ == vardefs_text(vars@, state@, locals@),
{
    let ghost f = |v: VarDef| vardef_text(v, state@, locals@);
    let mut out = String::new();
    let mut i: usize = 0;
    while i < vars.len()
        invariant
            0 <= i <= vars.len(),
            f == (|v: VarDef| vardef_text(v, state@, locals@)),
            out@ == concat(vars@.take(i as int).map_values(f)),
        decreases vars.len() - i,
    {
        let v = &vars[i];
        let init = match &v.assign {
            Some(e) => emit_expr(e, state, locals),
            None => var_default(v),
        };
        let name = ident(v.name.as_str());
        let ty = var_rust_type(v);
        out.append("            let mut ");
        out.append(name.as_str());
        out.append(": ");
        out.append(ty.as_str());
        out.append(" = ");
        out.append(init.as_str());
        out.append(";\n");
        assert(vars@.take(i + 1).map_values(f).drop_last() =~= vars@.take(i as int).map_values(f));
        i = i + 1;
    }
    assert(vars@.take(vars.len() as int) =~= vars@);
    out
}

/// The operands of a print argument: string concatenations with `+` are split
/// into their operands, parentheses looked through.
pub open spec fn flat_operands(e: Expr, state: Set<Seq<char>>, locals: Set<Seq<char>>) -> Seq<Seq<char>>
    decreases e,
{
    match e {
        Expr::Paren(inner) => flat_operands(*inner, state, locals),
        Expr::BinOp { op, left, right } => {
            if op@ == "+"@ {
                flat_operands(*left, state, locals) + flat_operands(*right, state, locals)
            } else {
                seq![expr_text(e, state, locals)]
            }
        },
        _ => seq![expr_text(e, state, locals)],
    }
}

/// The operands of all print arguments in turn.
pub open spec fn print_operands(args: Seq<Expr>, state: Set<Seq<char>>, locals: Set<Seq<char>>) -> Seq<Seq<char>>
    decreases args.len(),
{
    if args.len() == 0 {
        Seq::empty()
    } else {
        print_operands(args.drop_last(), state, locals) + flat_operands(args.last(), state, locals)
    }
}

/// Appends the rendered operands of `expr` to `out`.
pub fn flatten_concat(expr: &Expr, state: &NameSet, locals: &NameSet, out: &mut Vec<String>)
    ensures
        views(final(out)@) == views(old(out)@) + flat_operands(*expr, state@, locals@),
    decreases *expr,
{
    match expr {
        Expr::Paren(inner) => {
            flatten_concat(inner, state, locals, out);
        },
        Expr::BinOp { op, left, right } => {
            if str_eq(op.as_str(), "+") {
                let ghost o = views(out@);
                flatten_concat(left, state, locals, out);
                flatten_concat(right, state, locals, out);
                assert(views(out@) =~= o + flat_operands(*expr, state@, locals@));
            } else {
                let t = emit_expr(expr, state, locals);
                let ghost o = out@;
                out.push(t);
                assert(views(out@) =~= views(o) + seq![t@]);
            }
        },
        _ => {
            let t = emit_expr(expr, state, locals);
            let ghost o = out@;
            out.push(t);
            assert(views(out@) =~= views(o) + seq![t@]);
        },
    }
}

/// A `print` or `println` call: one `{}` per operand.
pub open spec fn print_text(name: Seq<char>, args: Seq<Expr>, state: Set<Seq<char>>, locals: Set<Seq<char>>) -> Seq<char> {
    let mac = if name == "println"@ {
        "println"@
    } else {
        "print"@
    };
    let ops = print_operands(args, state, locals);
    let fmt = repeat("{}"@, ops.len());
    let rendered = join(ops, ", "@);
    if rendered.len() == 0 {
        "            "@ + mac + "!(\""@ + fmt + "\");\n"@
    } else {
        "            "@ + mac + "!(\""@ + fmt + "\", "@ + rendered + ");\n"@
    }
}

/// A `print` or `println` call.
pub fn emit_print(name: &str, args: &Vec<Expr>, state: &NameSet, locals: &NameSet) -> (res: String)
    ensures
        res@ == print_text(name@, args@, state@, locals@),
{
    let mac = if str_eq(name, "println") {
        "println"
    } else {
        "print"
    };
    let mut operands: Vec<String> = Vec::new();
    let mut i: usize = 0;
    while i < args.len()
        invariant
            0 <= i <= args.len(),
            views(operands@) == print_operands(args@.take(i as int), state@, locals@),
        decreases args.len() - i,
    {
        flatten_concat(&args[i], state, locals, &mut operands);
        assert(args@.take(i + 1).drop_last() =~= args@.take(i as int));
        i = i + 1;
    }
    assert(args@.take(args.len() as int) =~= args@);
    let fmt = repeat_string("{}", operands.len());
    let rendered = join_strings(&operands, ", ");
    let mut out = cat3("            ", mac, "!(\"");
    out.append(fmt.as_str());
    if rendered.unicode_len() == 0 {
        out.append("\");\n");
    } else {
        out.append("\", ");
        out.append(rendered.as_str());
        out.append(");\n");
    }
    out
}

/// The header of a `foreach` loop over one generator.
pub open spec fn for_header_text(g: Generator, state: Set<Seq<char>>, locals: Set<Seq<char>>) -> Seq<char> {
    "            for "@ + ident_text(g.identifier@) + " in ("@ + expr_text(g.start, state, locals) + ")..=("@
        + expr_text(g.end, state, locals) + ") {\n"@
}

/// The header of a `foreach` loop over one generator.
pub fn emit_for_header(g: &Generator, state: &NameSet, locals: &NameSet) -> (res: String)
    ensures
        res@ == for_header_text(*g, state@, locals@),
{
    let id = ident(g.identifier.as_str());
    let start = emit_expr(&g.start, state, locals);
    let end = emit_expr(&g.end, state, locals);
    let mut out = cat3("            for ", id.as_str(), " in (");
    out.append(start.as_str());
    out.append(")..=(");
    out.append(end.as_str());
    out.append(") {\n");
    out
}

/// The headers of nested `foreach` loops, one per generator.
pub open spec fn for_headers_text(gens: Seq<Generator>, state: Set<Seq<char>>, locals: Set<Seq<char>>) -> Seq<char> {
    concat(gens.map_values(|g: Generator| for_header_text(g, state, locals)))
}

fn emit_for_headers(gens: &Vec<Generator>, state: &NameSet, locals: &NameSet) -> (res: String)
    ensures
        res@ == for_headers_text(gens@, state@, locals@),
{
    let ghost f = |g: Generator| for_header_text(g, state@, locals@);
    let mut out = String::new();
    let mut i: usize = 0;
    while i < gens.len()
        invariant
            0 <= i <= gens.len(),
            f == (|g: Generator| for_header_text(g, state@, locals@)),
            out@ == concat(gens@.take(i as int).map_values(f)),
        decreases gens.len() - i,
    {
        let h = emit_for_header(&gens[i], state, locals);
        out.append(h.as_str());
        assert(gens@.take(i + 1).map_values(f).drop_last() =~= gens@.take(i as int).map_values(f));
        i = i + 1;
    }
    assert(gens@.take(gens.len() as int) =~= gens@);
    out
}

/// Statements in turn.
pub open spec fn stmts_text(ss: Seq<Stmt>, state: Set<Seq<char>>, locals: Set<Seq<char>>, ret: Seq<char>) -> Seq<char>
    decreases ss, 0int,
{
    if ss.len() == 0 {
        Seq::empty()
    } else {
        stmts_text(ss.subrange(0, ss.len() - 1), state, locals, ret) + stmt_text(ss.last(), state, locals, ret)
    }
}

/// A block with its own variables.
pub open spec fn scope_text(vars: Seq<VarDef>, stmts: Seq<Stmt>, state: Set<Seq<char>>, locals: Set<Seq<char>>, ret: Seq<char>) -> Seq<char>
    decreases stmts, 1int,
{
    let inner = locals.union(var_names(vars));
    "            {\n"@ + vardefs_text(vars, state, inner) + stmts_text(stmts, state, inner, ret) + "            }\n"@
}

/// The Rust text of a CAL statement, one line or block per statement; a CAL
/// `return` becomes `ret`, the line that leaves the enclosing Rust function.
pub open spec fn stmt_text(s: Stmt, state: Set<Seq<char>>, locals: Set<Seq<char>>, ret: Seq<char>) -> Seq<char>
    decreases s, 1int,
{
    match s {
        Stmt::If { cond, then, els } => {
            let head = "            if "@ + expr_text(cond, state, locals) + " {\n"@ + stmts_text(then@, state, locals, ret) + "            }"@;
            if els.len() == 0 {
                head + "\n"@
            } else {
                head + " else {\n"@ + stmts_text(els@, state, locals, ret) + "            }"@ + "\n"@
            }
        },
        Stmt::Call { name, args } => {
            if name@ == "println"@ || name@ == "print"@ {
                print_text(name@, args@, state, locals)
            } else {
                "            "@ + ident_text(name@) + "("@ + join(exprs_texts(args@, state, locals), ", "@) + ");\n"@
            }
        },
        Stmt::Block { vars, stmts } => scope_text(vars@, stmts@, state, locals, ret),
        Stmt::While { cond, vars, stmts } => {
            let inner = locals.union(var_names(vars@));
            "            while "@ + expr_text(cond, state, locals) + " {\n"@ + vardefs_text(vars@, state, inner)
                + stmts_text(stmts@, state, inner, ret) + "            }\n"@
        },
        Stmt::Foreach { generators, vars, stmts } => {
            let inner = locals.union(generator_names(generators@)).union(var_names(vars@));
            for_headers_text(generators@, state, locals) + vardefs_text(vars@, state, inner) + stmts_text(stmts@, state, inner, ret)
                + repeat("            }\n"@, generators.len() as nat)
        },
        Stmt::OutputWrite { port, expr } => "            "@ + port_ref_text(port@) + ".push_back("@ + expr_text(expr, state, locals)
            + ");\n"@,
        Stmt::InputRead { port, identifier, .. } => "            let "@ + ident_text(identifier@) + " = "@ + port_ref_text(port@)
            + ".pop_front().unwrap();\n"@,
        Stmt::Assign { identifier, indices, value, .. } => {
            let target = indexed_text(resolve_text(identifier@, state, locals), indices@, state, locals);
            match value {
                Some(e) => "            "@ + target + " = "@ + expr_text(e, state, locals) + ";\n"@,
                None => Seq::empty(),
            }
        },
        Stmt::Return => ret,
        Stmt::TerminateLoop => "            break;\n"@,
    }
}

/// Statements in turn.
pub fn emit_stmts(ss: &Vec<Stmt>, state: &NameSet, locals: &NameSet, ret: &str) -> (res: String)
    ensures
        res@ == stmts_text(ss@, state@, locals@, ret@),
    decreases ss@, 0int,
{
    let mut out = String::new();
    let mut i: usize = 0;
    while i < ss.len()
        invariant
            0 <= i <= ss.len(),
            out@ == stmts_text(ss@.take(i as int), state@, locals@, ret@),
        decreases ss.len() - i,
    {
        let t = emit_stmt(&ss[i], state, locals, ret);
        out.append(t.as_str());
        assert(ss@.take(i + 1).subrange(0, i as int) =~= ss@.take(i as int));
        i = i + 1;
    }
    assert(ss@.take(ss.len() as int) =~= ss@);
    out
}

/// A block with its own variables.
pub fn emit_scope(vars: &Vec<VarDef>, stmts: &Vec<Stmt>, state: &NameSet, locals: &NameSet, ret: &str) -> (res: String)
    ensures
        res@ == scope_text(vars@, stmts@, state@, locals@, ret@),
    decreases stmts@, 1int,
{
    let inner = with_var_names(locals, vars);
    let decls = emit_vardefs(vars, state, &inner);
    let body = emit_stmts(stmts, state, &inner, ret);
    let mut out = cat3("            {\n", decls.as_str(), body.as_str());
    out.append("            }\n");
    out
}

/// The Rust text of a CAL statement; a CAL `return` becomes `ret`.
pub fn emit_stmt(stmt: &Stmt, state: &NameSet, locals: &NameSet, ret: &str) -> (res: String)
    ensures
        res@ == stmt_text(*stmt, state@, locals@, ret@),
    decreases *stmt, 1int,
{
    match stmt {
        Stmt::If { cond, then, els } => {
            let c = emit_expr(cond, state, locals);
            let t = emit_stmts(then, state, locals, ret);
            let mut out = cat3("            if ", c.as_str(), " {\n");
            out.append(t.as_str());
            out.append("            }");
            if els.len() != 0 {
                let e = emit_stmts(els, state, locals, ret);
                out.append(" else {\n");
                out.append(e.as_str());
                out.append("            }");
            }
            out.append("\n");
            out
        },
        Stmt::Call { name, args } => {
            if str_eq(name.as_str(), "println") || str_eq(name.as_str(), "print") {
                emit_print(name.as_str(), args, state, locals)
            } else {
                let rendered = emit_exprs(args, state, locals);
                let joined = join_strings(&rendered, ", ");
                let id = ident(name.as_str());
                let mut out = cat3("            ", id.as_str(), "(");
                out.append(joined.as_str());
                out.append(");\n");
                out
            }
        },
        Stmt::Block { vars, stmts } => emit_scope(vars, stmts, state, locals, ret),
        Stmt::While { cond, vars, stmts } => {
            let inner = with_var_names(locals, vars);
            let decls = emit_vardefs(vars, state, &inner);
            let body = emit_stmts(stmts, state, &inner, ret);
            let c = emit_expr(cond, state, locals);
            let mut out = cat3("            while ", c.as_str(), " {\n");
            out.append(decls.as_str());
            out.append(body.as_str());
            out.append("            }\n");
            out
        },
        Stmt::Foreach { generators, vars, stmts } => {
            let with_gens = with_generator_names(locals, generators);
            let inner = with_var_names(&with_gens, vars);
            let decls = emit_vardefs(vars, state, &inner);
            let body = emit_stmts(stmts, state, &inner, ret);
            let mut out = emit_for_headers(generators, state, locals);
            out.append(decls.as_str());
            out.append(body.as_str());
            let closers = repeat_string("            }\n", generators.len());
            out.append(closers.as_str());
            out
        },
        Stmt::OutputWrite { port, expr } => {
            let p = port_ref(port.as_str());
            let e = emit_expr(expr, state, locals);
            let mut out = cat3("            ", p.as_str(), ".push_back(");
            out.append(e.as_str());
            out.append(");\n");
            out
        },
        Stmt::InputRead { port, identifier, .. } => {
            let id = ident(identifier.as_str());
            let p = port_ref(port.as_str());
            let mut out = cat3("            let ", id.as_str(), " = ");
            out.append(p.as_str());
            out.append(".pop_front().unwrap();\n");
            out
        },
        Stmt::Assign { identifier, indices, value, .. } => {
            let base = resolve(identifier.as_str(), state, locals);
            let target = emit_indices(base, indices, state, locals);
            match value {
                Some(e) => {
                    let v = emit_expr(e, state, locals);
                    let mut out = cat3("            ", target.as_str(), " = ");
                    out.append(v.as_str());
                    out.append(";\n");
                    out
                },
                None => String::new(),
            }
        },
        Stmt::Return => owned(ret),
        Stmt::TerminateLoop => owned("            break;\n"),
    }
}

/// The parameter list of a function or procedure.
pub open spec fn params_text(ps: Seq<Parameter>) -> Seq<char> {
    join(ps.map_values(|p: Parameter| ident_text(p.name@) + ": "@ + rust_type_text(p.typ)), ", "@)
}

/// The parameter list of a function or procedure.
pub fn emit_params(ps: &Vec<Parameter>) -> (res: String)
    ensures
        res@ == params_text(ps@),
{
    let ghost f = |p: Parameter| ident_text(p.name@) + ": "@ + rust_type_text(p.typ);
    let mut parts: Vec<String> = Vec::new();
    let mut i: usize = 0;
    while i < ps.len()
        invariant
            0 <= i <= ps.len(),
            f == (|p: Parameter| ident_text(p.name@) + ": "@ + rust_type_text(p.typ)),
            views(parts@) == ps@.take(i as int).map_values(f),
        decreases ps.len() - i,
    {
        let n = ident(ps[i].name.as_str());
        let t = rust_type(&ps[i].typ);
        let ghost before = parts@;
        let piece = cat3(n.as_str(), ": ", t.as_str());
        assert(piece@ == f(ps@[i as int]));
        parts.push(piece);
        assert(ps@.take(i + 1).map_values(f) =~= ps@.take(i as int).map_values(f).push(f(ps@[i as int])));
        assert(views(parts@) =~= views(before).push(piece@));
        i = i + 1;
    }
    assert(ps@.take(ps.len() as int) =~= ps@);
    join_strings(&parts, ", ")
}

/// A CAL function as a free Rust function whose body is its expression.
pub open spec fn function_text(f: Function) -> Seq<char> {
    "fn "@ + ident_text(f.name@) + "("@ + params_text(f.parameters@) + ") -> "@ + rust_type_text(f.ret_type) + " {\n    "@
        + expr_text(f.expr, Set::empty(), param_names(f.parameters@)) + "\n}\n"@
}

/// A CAL function as a free Rust function.
pub fn emit_function(f: &Function) -> (res: String)
    ensures
        res@ == function_text(*f),
{
    let params = emit_params(&f.parameters);
    let locals = param_name_set(&f.parameters);
    let empty = NameSet::new();
    let body = emit_expr(&f.expr, &empty, &locals);
    let name = ident(f.name.as_str());
    let ret = rust_type(&f.ret_type);
    let mut out = cat3("fn ", name.as_str(), "(");
    out.append(params.as_str());
    out.append(") -> ");
    out.append(ret.as_str());
    out.append(" {\n    ");
    out.append(body.as_str());
    out.append("\n}\n");
    out
}

/// A CAL procedure as a free Rust function with its local variables.
pub open spec fn procedure_text(p: Procedure) -> Seq<char> {
    let locals = param_names(p.parameters@).union(var_names(p.vars@));
    "fn "@ + ident_text(p.name@) + "("@ + params_text(p.parameters@) + ") {\n"@ + vardefs_text(p.vars@, Set::empty(), locals)
        + stmts_text(p.stmts@, Set::empty(), locals, "            return;\n"@) + "}\n"@
}

/// A CAL procedure as a free Rust function.
pub fn emit_procedure(p: &Procedure) -> (res: String)
    ensures
        res@ == procedure_text(*p),
{
    let params = emit_params(&p.parameters);
    let ps = param_name_set(&p.parameters);
    let locals = with_var_names(&ps, &p.vars);
    let empty = NameSet::new();
    let decls = emit_vardefs(&p.vars, &empty, &locals);
    let body = emit_stmts(&p.stmts, &empty, &locals, "            return;\n");
    let name = ident(p.name.as_str());
    let mut out = cat3("fn ", name.as_str(), "(");
    out.append(params.as_str());
    out.append(") {\n");
    out.append(decls.as_str());
    out.append(body.as_str());
    out.append("}\n");
    out
}

/// The loop of generator `g` in a list comprehension: CAL ranges include
/// their end, so the loop runs over `start..=end`.
pub open spec fn inclusive_loop_text(g: Generator, state: Set<Seq<char>>, locals: Set<Seq<char>>) -> Seq<char> {
    "for "@ + ident_text(g.identifier@) + " in ("@ + expr_text(g.start, state, locals) + ")..=("@ + expr_text(g.end, state, locals)
        + ") { "@
}

proof fn headers_hold_loops(gens: Seq<Generator>, state: Set<Seq<char>>, locals: Set<Seq<char>>, k: int)
    requires
        0 <= k < gens.len(),
    ensures
        occurs_in(inclusive_loop_text(gens[k], state, locals), comprehension_headers(gens, state, locals)),
    decreases gens.len(),
{
    let pre = gens.subrange(0, gens.len() - 1);
    let h = comprehension_headers(pre, state, locals);
    let last = inclusive_loop_text(gens.last(), state, locals);
    assert(comprehension_headers(gens, state, locals) =~= h + last);
    if k == gens.len() - 1 {
        occurs_in_middle(h, last, Seq::empty());
        assert(h + last + Seq::<char>::empty() =~= h + last);
    } else {
        headers_hold_loops(pre, state, locals, k);
        assert(pre[k] == gens[k]);
        occurs_in_grow(inclusive_loop_text(gens[k], state, locals), h, Seq::empty(), last);
        assert(Seq::<char>::empty() + h + last =~= h + last);
    }
}

/// A list comprehension over generators `x in a .. b` iterates, for every
/// generator, over every integer from `a` to `b` inclusive: its Rust text
/// holds the loop `for x in (a)..=(b) { ` of each generator.
pub proof fn comprehension_ranges_inclusive(e: Expr, state: Set<Seq<char>>, locals: Set<Seq<char>>)
    requires
        e is ListComprehension,
    ensures
        ({
            let gens = e->generators@;
            let inner = locals.union(generator_names(gens));
            forall|k: int|
                0 <= k < gens.len() ==> occurs_in(
                    "for "@ + ident_text(gens[k].identifier@) + " in ("@ + expr_text(gens[k].start, state, inner) + ")..=("@
                        + expr_text(gens[k].end, state, inner) + ") { "@,
                    #[trigger] expr_text(e, state, locals),
                )
        }),
{
    let gens = e->generators@;
    let es = e->expressions@;
    let inner = locals.union(generator_names(gens));
    assert forall|k: int| 0 <= k < gens.len() implies occurs_in(
        "for "@ + ident_text(gens[k].identifier@) + " in ("@ + expr_text(gens[k].start, state, inner) + ")..=("@
            + expr_text(gens[k].end, state, inner) + ") { "@,
        #[trigger] expr_text(e, state, locals),
    ) by {
        headers_hold_loops(gens, state, inner, k);
        let h = comprehension_headers(gens, state, inner);
        let a = "{ let mut __lc = Vec::new(); "@;
        let b = comprehension_pushes(es, state, inner) + repeat("} "@, gens.len() as nat) + "__lc }"@;
        occurs_in_grow(inclusive_loop_text(gens[k], state, inner), h, a, b);
        assert(expr_text(e, state, locals) =~= a + h + b);
    }
}

} // verus!
