//! Declarations of CAL `@native` functions and procedures: `extern "C"`
//! prototypes with C types, and safe Rust wrappers around them.
use vstd::prelude::*;

use crate::ast::{Actor, Expr, NativeFunction, NativeProcedure, Parameter, Type, Unit};
use crate::codegen::common::names::{ident, ident_text};
use crate::codegen::common::scope::{
    first_by_name, first_by_name_keeps_firsts, first_by_name_push, first_by_name_unique, first_of_its_name, names_of, names_of_push, NameSet,
};
use crate::codegen::common::types::{rust_type, rust_type_text};
use crate::codegen::orcc::OPTIONS_RS;
use crate::codegen::{ActorMap, Program};
use crate::text::{cat2, cat3, concat, decimal, decimal_string, join, join_strings, owned, str_eq, views};

verus! {

/// Whether `c` has the Unicode `White_Space` property.
pub open spec fn is_white_space(c: char) -> bool {
    ('\u{9}' <= c && c <= '\u{d}') || c == ' ' || c == '\u{85}' || c == '\u{a0}' || c == '\u{1680}' || ('\u{2000}' <= c
        && c <= '\u{200a}') || c == '\u{2028}' || c == '\u{2029}' || c == '\u{202f}' || c == '\u{205f}' || c == '\u{3000}'
}

/// `s` without its leading white space.
pub open spec fn trim_start(s: Seq<char>) -> Seq<char>
    decreases s.len(),
{
    if s.len() > 0 && is_white_space(s[0]) {
        trim_start(s.drop_first())
    } else {
        s
    }
}

/// `s` without its trailing white space.
pub open spec fn trim_end(s: Seq<char>) -> Seq<char>
    decreases s.len(),
{
    if s.len() > 0 && is_white_space(s.last()) {
        trim_end(s.drop_last())
    } else {
        s
    }
}

/// `s` without leading and trailing white space.
pub open spec fn trimmed(s: Seq<char>) -> Seq<char> {
    trim_end(trim_start(s))
}

/// Whether `c` has the Unicode `White_Space` property.
fn white_space(c: char) -> (res: bool)
    ensures
        res == is_white_space(c),
{
    ('\u{9}' <= c && c <= '\u{d}') || c == ' ' || c == '\u{85}' || c == '\u{a0}' || c == '\u{1680}' || ('\u{2000}' <= c
        && c <= '\u{200a}') || c == '\u{2028}' || c == '\u{2029}' || c == '\u{202f}' || c == '\u{205f}' || c == '\u{3000}'
}

/// `s` without leading and trailing white space.
fn trim(s: &str) -> (res: &str)
    ensures
        res@ == trimmed(s@),
{
    let n = s.unicode_len();
    let mut start: usize = 0;
    assert(s@.skip(0) =~= s@);
    while start < n && white_space(s.get_char(start))
        invariant
            0 <= start <= n,
            n == s@.len(),
            trim_start(s@) == trim_start(s@.skip(start as int)),
        decreases n - start,
    {
        assert(s@.skip(start as int).drop_first() =~= s@.skip(start + 1));
        start = start + 1;
    }
    if start == n {
        assert(s@.skip(start as int) =~= Seq::<char>::empty());
    }
    let ghost t = s@.skip(start as int);
    assert(trim_start(s@) == t);
    let mut end: usize = n;
    assert(s@.subrange(start as int, end as int) =~= t);
    while end > start && white_space(s.get_char(end - 1))
        invariant
            start <= end <= n,
            n == s@.len(),
            trim_end(t) == trim_end(s@.subrange(start as int, end as int)),
        decreases end,
    {
        assert(s@.subrange(start as int, end as int).drop_last() =~= s@.subrange(start as int, end - 1));
        end = end - 1;
    }
    if end == start {
        assert(s@.subrange(start as int, end as int) =~= Seq::<char>::empty());
    }
    s.substring_char(start, end)
}

/// The value of a digit character in bases up to 36; 36 for any other character.
pub open spec fn digit_value(c: char) -> nat {
    if '0' <= c && c <= '9' {
        (c as int - '0' as int) as nat
    } else if 'a' <= c && c <= 'z' {
        (c as int - 'a' as int + 10) as nat
    } else if 'A' <= c && c <= 'Z' {
        (c as int - 'A' as int + 10) as nat
    } else {
        36
    }
}

/// The number the digits stand for in base `radix`.
pub open spec fn digits_value(ds: Seq<char>, radix: nat) -> nat
    decreases ds.len(),
{
    if ds.len() == 0 {
        0
    } else {
        digits_value(ds.drop_last(), radix) * radix + digit_value(ds.last())
    }
}

/// `s` without a leading `+`.
pub open spec fn unsigned_digits(s: Seq<char>) -> Seq<char> {
    if s.len() > 0 && s[0] == '+' {
        s.drop_first()
    } else {
        s
    }
}

/// An unsigned 32-bit number in base `radix`: an optional `+`, then one or more
/// digits of the base, with a value that fits.
pub open spec fn parse_u32_radix(s: Seq<char>, radix: nat) -> Option<u32> {
    let ds = unsigned_digits(s);
    if ds.len() > 0 && (forall|i: int| 0 <= i < ds.len() ==> digit_value(#[trigger] ds[i]) < radix) && digits_value(ds, radix)
        <= u32::MAX {
        Some(digits_value(ds, radix) as u32)
    } else {
        None
    }
}

/// The value of a digit character in bases up to 36; 36 for any other character.
fn digit_of(c: char) -> (res: u32)
    ensures
        res == digit_value(c),
{
    if '0' <= c && c <= '9' {
        (c as u32) - ('0' as u32)
    } else if 'a' <= c && c <= 'z' {
        (c as u32) - ('a' as u32) + 10
    } else if 'A' <= c && c <= 'Z' {
        (c as u32) - ('A' as u32) + 10
    } else {
        36
    }
}

/// Reads an unsigned 32-bit number in base `radix`.
fn u32_from_str_radix(s: &str, radix: u32) -> (res: Option<u32>)
    requires
        2 <= radix <= 36,
    ensures
        res == parse_u32_radix(s@, radix as nat),
{
    let n = s.unicode_len();
    let start: usize = if n > 0 && s.get_char(0) == '+' {
        1
    } else {
        0
    };
    let ghost ds = unsigned_digits(s@);
    assert(ds =~= s@.subrange(start as int, n as int));
    if start == n {
        return None;
    }
    let mut acc: u32 = 0;
    let mut overflow = false;
    let mut i: usize = start;
    assert(s@.subrange(start as int, i as int) =~= Seq::<char>::empty());
    while i < n
        invariant
            start <= i <= n,
            n == s@.len(),
            2 <= radix <= 36,
            ds == unsigned_digits(s@),
            ds == s@.subrange(start as int, n as int),
            forall|k: int| start <= k < i ==> digit_value(#[trigger] s@[k]) < radix,
            !overflow ==> acc == digits_value(s@.subrange(start as int, i as int), radix as nat),
            overflow ==> digits_value(s@.subrange(start as int, i as int), radix as nat) > u32::MAX,
        decreases n - i,
    {
        let d = digit_of(s.get_char(i));
        if d >= radix {
            assert(ds[i - start] == s@[i as int]);
            assert(digit_value(ds[i - start]) >= radix);
            return None;
        }
        let ghost prev = digits_value(s@.subrange(start as int, i as int), radix as nat);
        assert(s@.subrange(start as int, i + 1).drop_last() =~= s@.subrange(start as int, i as int));
        assert(digits_value(s@.subrange(start as int, i + 1), radix as nat) == prev * radix + d);
        if overflow {
            assert(prev * radix + d > u32::MAX) by (nonlinear_arith)
                requires
                    prev > u32::MAX,
                    radix >= 2,
                    d >= 0,
            ;
        } else {
            match acc.checked_mul(radix) {
                Some(m) => match m.checked_add(d) {
                    Some(v) => {
                        acc = v;
                    },
                    None => {
                        overflow = true;
                    },
                },
                None => {
                    assert(prev * radix + d > u32::MAX) by (nonlinear_arith)
                        requires
                            prev * radix > u32::MAX,
                            d >= 0,
                    ;
                    overflow = true;
                },
            }
        }
        i = i + 1;
    }
    assert(s@.subrange(start as int, n as int) == ds);
    if overflow {
        None
    } else {
        Some(acc)
    }
}

/// The value of an integer literal, looking through parentheses: decimal, or
/// hexadecimal after `0x` or `0X`, surrounding white space ignored.
pub open spec fn literal_value(e: Expr) -> Option<u32>
    decreases e,
{
    match e {
        Expr::Paren(inner) => literal_value(*inner),
        Expr::Literal { value, .. } => {
            let v = trimmed(value@);
            if v.len() >= 2 && v[0] == '0' && (v[1] == 'x' || v[1] == 'X') {
                parse_u32_radix(v.skip(2), 16)
            } else {
                parse_u32_radix(v, 10)
            }
        },
        _ => None,
    }
}

/// The value of an integer literal.
pub fn eval_lit(expr: &Expr) -> (res: Option<u32>)
    ensures
        res == literal_value(*expr),
    decreases *expr,
{
    match expr {
        Expr::Paren(inner) => eval_lit(inner),
        Expr::Literal { value, .. } => {
            let v = trim(value.as_str());
            let n = v.unicode_len();
            let hex = n >= 2 && v.get_char(0) == '0' && (v.get_char(1) == 'x' || v.get_char(1) == 'X');
            if hex {
                let digits = v.substring_char(2, n);
                assert(digits@ =~= v@.skip(2));
                u32_from_str_radix(digits, 16)
            } else {
                u32_from_str_radix(v, 10)
            }
        },
        _ => None,
    }
}

/// The C integer type (without its `core::ffi::` path) for a bit width.
pub open spec fn c_base_text(bits: u32, unsigned: bool) -> Seq<char> {
    if bits <= 8 {
        if unsigned {
            "c_uchar"@
        } else {
            "c_char"@
        }
    } else if bits <= 16 {
        if unsigned {
            "c_ushort"@
        } else {
            "c_short"@
        }
    } else if bits <= 32 {
        if unsigned {
            "c_uint"@
        } else {
            "c_int"@
        }
    } else {
        if unsigned {
            "c_ulonglong"@
        } else {
            "c_longlong"@
        }
    }
}

/// The C type a CAL type crosses the native boundary as: `bool` and lists as
/// `c_int`, integers by their declared size (32 bits when none is given) and
/// signedness (`uint` types are unsigned).
pub open spec fn c_type_text(t: Type) -> Seq<char> {
    if t.name@ == "bool"@ || t.list is Some {
        "core::ffi::c_int"@
    } else {
        let unsigned = t.name@.len() >= 4 && t.name@.take(4) == "uint"@;
        let bits: u32 = match t.size {
            Some(e) => match literal_value(*e) {
                Some(b) => b,
                None => 32,
            },
            None => 32,
        };
        "core::ffi::"@ + c_base_text(bits, unsigned)
    }
}

/// The C type a CAL type crosses the native boundary as.
pub fn c_type(t: &Type) -> (res: String)
    ensures
        res@ == c_type_text(*t),
{
    if str_eq(t.name.as_str(), "bool") {
        return owned("core::ffi::c_int");
    }
    if t.list.is_some() {
        return owned("core::ffi::c_int");
    }
    let name = t.name.as_str();
    let unsigned = if name.unicode_len() >= 4 {
        let prefix = name.substring_char(0, 4);
        assert(prefix@ =~= name@.take(4));
        str_eq(prefix, "uint")
    } else {
        false
    };
    let bits: u32 = match &t.size {
        Some(e) => match eval_lit(e) {
            Some(b) => b,
            None => 32,
        },
        None => 32,
    };
    let base = if bits <= 8 {
        if unsigned {
            "c_uchar"
        } else {
            "c_char"
        }
    } else if bits <= 16 {
        if unsigned {
            "c_ushort"
        } else {
            "c_short"
        }
    } else if bits <= 32 {
        if unsigned {
            "c_uint"
        } else {
            "c_int"
        }
    } else {
        if unsigned {
            "c_ulonglong"
        } else {
            "c_longlong"
        }
    };
    cat2("core::ffi::", base)
}

/// The `i`-th parameter of a native binding.
pub open spec fn arg_name(i: int) -> Seq<char> {
    "a"@ + decimal(i as nat)
}

/// The C type (`c_types`) or the Rust type of a CAL type.
pub open spec fn boundary_type_text(c_types: bool, t: Type) -> Seq<char> {
    if c_types {
        c_type_text(t)
    } else {
        rust_type_text(t)
    }
}

/// `a<i>`, `sep` and the boundary type of each parameter.
pub open spec fn numbered_texts(ps: Seq<Parameter>, sep: Seq<char>, c_types: bool) -> Seq<Seq<char>>
    decreases ps.len(),
{
    if ps.len() == 0 {
        Seq::empty()
    } else {
        numbered_texts(ps.drop_last(), sep, c_types).push(
            arg_name(ps.len() - 1) + sep + boundary_type_text(c_types, ps.last().typ),
        )
    }
}

/// Parameters `a0`, `a1`, ... with their C types.
pub open spec fn c_params_text(ps: Seq<Parameter>) -> Seq<char> {
    join(numbered_texts(ps, ": "@, true), ", "@)
}

/// Parameters `a0`, `a1`, ... with their Rust types.
pub open spec fn wrapper_params_text(ps: Seq<Parameter>) -> Seq<char> {
    join(numbered_texts(ps, ": "@, false), ", "@)
}

/// Arguments `a0`, `a1`, ... cast to their C types.
pub open spec fn call_args_text(ps: Seq<Parameter>) -> Seq<char> {
    join(numbered_texts(ps, " as "@, true), ", "@)
}

/// `a<i>`, `sep` and the boundary type of each parameter, joined with commas.
fn numbered_params(params: &Vec<Parameter>, sep: &str, c_types: bool) -> (res: String)
    ensures
        res@ == join(numbered_texts(params@, sep@, c_types), ", "@),
{
    let mut parts: Vec<String> = Vec::new();
    let mut i: usize = 0;
    while i < params.len()
        invariant
            0 <= i <= params.len(),
            views(parts@) == numbered_texts(params@.take(i as int), sep@, c_types),
        decreases params.len() - i,
    {
        let num = decimal_string(i);
        let ty = if c_types {
            c_type(&params[i].typ)
        } else {
            rust_type(&params[i].typ)
        };
        let mut piece = cat3("a", num.as_str(), sep);
        piece.append(ty.as_str());
        let ghost before = parts@;
        parts.push(piece);
        assert(params@.take(i + 1).drop_last() =~= params@.take(i as int));
        assert(views(parts@) =~= views(before).push(piece@));
        i = i + 1;
    }
    assert(params@.take(params.len() as int) =~= params@);
    join_strings(&parts, ", ")
}

/// Parameters `a0`, `a1`, ... with their C types.
pub fn c_param_list(params: &Vec<Parameter>) -> (res: String)
    ensures
        res@ == c_params_text(params@),
{
    numbered_params(params, ": ", true)
}

/// Parameters `a0`, `a1`, ... with their Rust types.
pub fn wrapper_param_list(params: &Vec<Parameter>) -> (res: String)
    ensures
        res@ == wrapper_params_text(params@),
{
    numbered_params(params, ": ", false)
}

/// Arguments `a0`, `a1`, ... cast to their C types.
pub fn wrapper_call_args(params: &Vec<Parameter>) -> (res: String)
    ensures
        res@ == call_args_text(params@),
{
    numbered_params(params, " as ", true)
}

/// A native function or procedure declaration.
pub enum NativeDecl {
    Function(NativeFunction),
    Procedure(NativeProcedure),
}

/// The CAL name of a native declaration.
pub open spec fn native_name(d: NativeDecl) -> Seq<char> {
    match d {
        NativeDecl::Function(f) => f.name@,
        NativeDecl::Procedure(p) => p.name@,
    }
}

/// Names native declarations by their CAL name.
pub open spec fn native_namer() -> spec_fn(NativeDecl) -> Seq<char> {
    |d: NativeDecl| native_name(d)
}

/// The native declarations of one actor or unit: functions, then procedures.
pub open spec fn natives_of(fns: Seq<NativeFunction>, procs: Seq<NativeProcedure>) -> Seq<NativeDecl> {
    fns.map_values(|f: NativeFunction| NativeDecl::Function(f)) + procs.map_values(|p: NativeProcedure| NativeDecl::Procedure(p))
}

/// The native declarations of units in turn.
pub open spec fn units_natives(us: Seq<Unit>) -> Seq<NativeDecl>
    decreases us.len(),
{
    if us.len() == 0 {
        Seq::empty()
    } else {
        units_natives(us.drop_last()) + natives_of(us.last().native_functions@, us.last().native_procedures@)
    }
}

/// The native declarations of actor classes in turn.
pub open spec fn actors_natives(es: Seq<(String, Box<Actor>)>) -> Seq<NativeDecl>
    decreases es.len(),
{
    if es.len() == 0 {
        Seq::empty()
    } else {
        actors_natives(es.drop_last()) + natives_of(es.last().1.native_functions@, es.last().1.native_procedures@)
    }
}

/// All native declarations of a program: the units' first, then the actors'.
pub open spec fn program_natives(units: Seq<Unit>, actors: ActorMap) -> Seq<NativeDecl> {
    units_natives(units) + actors_natives(actors.entries@)
}

/// The native declarations that get bindings: the first one of each name.
pub open spec fn bound_natives(units: Seq<Unit>, actors: ActorMap) -> Seq<NativeDecl> {
    first_by_name(program_natives(units, actors), native_namer())
}

/// The `extern` prototype of a native function.
pub open spec fn extern_fn_text(f: NativeFunction) -> Seq<char> {
    "    #[link_name = \""@ + f.name@ + "\"]\n    fn __crt_ffi_"@ + ident_text(f.name@) + "("@ + c_params_text(f.parameters@)
        + ") -> "@ + c_type_text(f.ret_type) + ";\n"@
}

/// The `extern` prototype of a native procedure.
pub open spec fn extern_proc_text(p: NativeProcedure) -> Seq<char> {
    "    #[link_name = \""@ + p.name@ + "\"]\n    fn __crt_ffi_"@ + ident_text(p.name@) + "("@ + c_params_text(p.parameters@)
        + ");\n"@
}

/// The safe wrapper of a native function: booleans come back as `!= 0`, other
/// values are cast to their Rust type.
pub open spec fn wrapper_fn_text(f: NativeFunction) -> Seq<char> {
    let ret = rust_type_text(f.ret_type);
    let call = "unsafe { __crt_ffi_"@ + ident_text(f.name@) + "("@ + call_args_text(f.parameters@) + ")"@;
    let body = if ret == "bool"@ {
        call + " != 0 }"@
    } else {
        call + " as "@ + ret + " }"@
    };
    "fn "@ + ident_text(f.name@) + "("@ + wrapper_params_text(f.parameters@) + ") -> "@ + ret + " { "@ + body + " }\n"@
}

/// The safe wrapper of a native procedure.
pub open spec fn wrapper_proc_text(p: NativeProcedure) -> Seq<char> {
    "fn "@ + ident_text(p.name@) + "("@ + wrapper_params_text(p.parameters@) + ") { unsafe { __crt_ffi_"@ + ident_text(p.name@)
        + "("@ + call_args_text(p.parameters@) + "); } }\n"@
}

/// The `extern` prototypes of the functions among `ds`.
pub open spec fn extern_fns_text(ds: Seq<NativeDecl>) -> Seq<char>
    decreases ds.len(),
{
    if ds.len() == 0 {
        Seq::empty()
    } else {
        extern_fns_text(ds.drop_last()) + match ds.last() {
            NativeDecl::Function(f) => extern_fn_text(f),
            NativeDecl::Procedure(_) => Seq::empty(),
        }
    }
}

/// The `extern` prototypes of the procedures among `ds`.
pub open spec fn extern_procs_text(ds: Seq<NativeDecl>) -> Seq<char>
    decreases ds.len(),
{
    if ds.len() == 0 {
        Seq::empty()
    } else {
        extern_procs_text(ds.drop_last()) + match ds.last() {
            NativeDecl::Function(_) => Seq::empty(),
            NativeDecl::Procedure(p) => extern_proc_text(p),
        }
    }
}

/// The wrappers of the functions among `ds`.
pub open spec fn wrapper_fns_text(ds: Seq<NativeDecl>) -> Seq<char>
    decreases ds.len(),
{
    if ds.len() == 0 {
        Seq::empty()
    } else {
        wrapper_fns_text(ds.drop_last()) + match ds.last() {
            NativeDecl::Function(f) => wrapper_fn_text(f),
            NativeDecl::Procedure(_) => Seq::empty(),
        }
    }
}

/// The wrappers of the procedures among `ds`.
pub open spec fn wrapper_procs_text(ds: Seq<NativeDecl>) -> Seq<char>
    decreases ds.len(),
{
    if ds.len() == 0 {
        Seq::empty()
    } else {
        wrapper_procs_text(ds.drop_last()) + match ds.last() {
            NativeDecl::Function(_) => Seq::empty(),
            NativeDecl::Procedure(p) => wrapper_proc_text(p),
        }
    }
}

/// The bindings of the natives `ds`: one `extern "C"` block with the
/// prototypes of the functions and then the procedures, then their wrappers in
/// the same order, then the orcc options glue when `orcc` is set.
pub open spec fn natives_text(ds: Seq<NativeDecl>, orcc: bool) -> Seq<char> {
    "unsafe extern \"C\" {\n"@ + extern_fns_text(ds) + extern_procs_text(ds) + "}\n\n"@ + wrapper_fns_text(ds)
        + wrapper_procs_text(ds) + "\n"@ + if orcc {
        OPTIONS_RS@
    } else {
        Seq::empty()
    }
}

/// The `extern` prototype of a native function.
fn extern_fn_decl(f: &NativeFunction) -> (res: String)
    ensures
        res@ == extern_fn_text(*f),
{
    let params = c_param_list(&f.parameters);
    let id = ident(f.name.as_str());
    let cty = c_type(&f.ret_type);
    let mut out = cat3("    #[link_name = \"", f.name.as_str(), "\"]\n    fn __crt_ffi_");
    out.append(id.as_str());
    out.append("(");
    out.append(params.as_str());
    out.append(") -> ");
    out.append(cty.as_str());
    out.append(";\n");
    out
}

/// The `extern` prototype of a native procedure.
fn extern_proc_decl(p: &NativeProcedure) -> (res: String)
    ensures
        res@ == extern_proc_text(*p),
{
    let params = c_param_list(&p.parameters);
    let id = ident(p.name.as_str());
    let mut out = cat3("    #[link_name = \"", p.name.as_str(), "\"]\n    fn __crt_ffi_");
    out.append(id.as_str());
    out.append("(");
    out.append(params.as_str());
    out.append(");\n");
    out
}

/// The safe wrapper of a native function.
fn wrapper_fn(f: &NativeFunction) -> (res: String)
    ensures
        res@ == wrapper_fn_text(*f),
{
    let id = ident(f.name.as_str());
    let wparams = wrapper_param_list(&f.parameters);
    let args = wrapper_call_args(&f.parameters);
    let ret = rust_type(&f.ret_type);
    let mut body = cat3("unsafe { __crt_ffi_", id.as_str(), "(");
    body.append(args.as_str());
    body.append(")");
    if str_eq(ret.as_str(), "bool") {
        body.append(" != 0 }");
    } else {
        body.append(" as ");
        body.append(ret.as_str());
        body.append(" }");
    }
    let mut out = cat3("fn ", id.as_str(), "(");
    out.append(wparams.as_str());
    out.append(") -> ");
    out.append(ret.as_str());
    out.append(" { ");
    out.append(body.as_str());
    out.append(" }\n");
    out
}

/// The safe wrapper of a native procedure.
fn wrapper_proc(p: &NativeProcedure) -> (res: String)
    ensures
        res@ == wrapper_proc_text(*p),
{
    let id = ident(p.name.as_str());
    let wparams = wrapper_param_list(&p.parameters);
    let args = wrapper_call_args(&p.parameters);
    let mut out = cat3("fn ", id.as_str(), "(");
    out.append(wparams.as_str());
    out.append(") { unsafe { __crt_ffi_");
    out.append(id.as_str());
    out.append("(");
    out.append(args.as_str());
    out.append("); } }\n");
    out
}

/// The four parts of the bindings being built, with the declarations seen so far.
struct NativeScan {
    extern_fns: String,
    extern_procs: String,
    wrapper_fns: String,
    wrapper_procs: String,
    seen: NameSet,
    done: Ghost<Seq<NativeDecl>>,
}

impl NativeScan {
    spec fn inv(&self) -> bool {
        let kept = first_by_name(self.done@, native_namer());
        &&& self.seen@ == names_of(self.done@, native_namer())
        &&& self.extern_fns@ == extern_fns_text(kept)
        &&& self.extern_procs@ == extern_procs_text(kept)
        &&& self.wrapper_fns@ == wrapper_fns_text(kept)
        &&& self.wrapper_procs@ == wrapper_procs_text(kept)
    }

    fn new() -> (res: NativeScan)
        ensures
            res.inv(),
            res.done@ == Seq::<NativeDecl>::empty(),
    {
        let res = NativeScan {
            extern_fns: String::new(),
            extern_procs: String::new(),
            wrapper_fns: String::new(),
            wrapper_procs: String::new(),
            seen: NameSet::new(),
            done: Ghost(Seq::empty()),
        };
        assert(res.seen@ =~= names_of(res.done@, native_namer()));
        res
    }

    proof fn step(&self, d: NativeDecl)
        requires
            self.inv(),
        ensures
            ({
                let name = native_namer();
                let kept = first_by_name(self.done@, name);
                &&& names_of(self.done@.push(d), name) == self.seen@.insert(native_name(d))
                &&& first_by_name(self.done@.push(d), name) == if self.seen@.contains(native_name(d)) {
                    kept
                } else {
                    kept.push(d)
                }
            }),
    {
        let name = native_namer();
        names_of_push(self.done@, d, name);
        first_by_name_push(self.done@, d, name);
    }

    fn add_function(&mut self, f: &NativeFunction)
        requires
            old(self).inv(),
        ensures
            final(self).inv(),
            final(self).done@ == old(self).done@.push(NativeDecl::Function(*f)),
    {
        let ghost d = NativeDecl::Function(*f);
        let ghost kept = first_by_name(self.done@, native_namer());
        proof {
            self.step(d);
            assert(kept.push(d).drop_last() =~= kept);
        }
        if !self.seen.contains(f.name.as_str()) {
            let e = extern_fn_decl(f);
            let w = wrapper_fn(f);
            self.extern_fns.append(e.as_str());
            self.wrapper_fns.append(w.as_str());
            self.seen.insert(f.name.as_str());
        } else {
            assert(self.seen@.insert(native_name(d)) =~= self.seen@);
        }
        self.done = Ghost(self.done@.push(d));
    }

    fn add_procedure(&mut self, p: &NativeProcedure)
        requires
            old(self).inv(),
        ensures
            final(self).inv(),
            final(self).done@ == old(self).done@.push(NativeDecl::Procedure(*p)),
    {
        let ghost d = NativeDecl::Procedure(*p);
        let ghost kept = first_by_name(self.done@, native_namer());
        proof {
            self.step(d);
            assert(kept.push(d).drop_last() =~= kept);
        }
        if !self.seen.contains(p.name.as_str()) {
            let e = extern_proc_decl(p);
            let w = wrapper_proc(p);
            self.extern_procs.append(e.as_str());
            self.wrapper_procs.append(w.as_str());
            self.seen.insert(p.name.as_str());
        } else {
            assert(self.seen@.insert(native_name(d)) =~= self.seen@);
        }
        self.done = Ghost(self.done@.push(d));
    }

    fn add_all(&mut self, fns: &Vec<NativeFunction>, procs: &Vec<NativeProcedure>)
        requires
            old(self).inv(),
        ensures
            final(self).inv(),
            final(self).done@ == old(self).done@ + natives_of(fns@, procs@),
    {
        let ghost start = self.done@;
        let mut i: usize = 0;
        while i < fns.len()
            invariant
                0 <= i <= fns.len(),
                self.inv(),
                self.done@ == start + fns@.take(i as int).map_values(|f: NativeFunction| NativeDecl::Function(f)),
            decreases fns.len() - i,
        {
            self.add_function(&fns[i]);
            assert(fns@.take(i + 1).map_values(|f: NativeFunction| NativeDecl::Function(f)) =~= fns@.take(i as int).map_values(
                |f: NativeFunction| NativeDecl::Function(f),
            ).push(NativeDecl::Function(fns@[i as int])));
            i = i + 1;
        }
        assert(fns@.take(fns.len() as int) =~= fns@);
        let ghost mid = self.done@;
        let mut j: usize = 0;
        while j < procs.len()
            invariant
                0 <= j <= procs.len(),
                self.inv(),
                self.done@ == mid + procs@.take(j as int).map_values(|p: NativeProcedure| NativeDecl::Procedure(p)),
            decreases procs.len() - j,
        {
            self.add_procedure(&procs[j]);
            assert(procs@.take(j + 1).map_values(|p: NativeProcedure| NativeDecl::Procedure(p)) =~= procs@.take(
                j as int,
            ).map_values(|p: NativeProcedure| NativeDecl::Procedure(p)).push(NativeDecl::Procedure(procs@[j as int])));
            j = j + 1;
        }
        assert(procs@.take(procs.len() as int) =~= procs@);
        assert(self.done@ =~= start + natives_of(fns@, procs@));
    }
}

/// The bindings of all natives of a program, each name bound once (its first
/// declaration, units before actors); the orcc options glue follows when `orcc`
/// is set.
pub fn emit_natives(program: &Program, orcc: bool) -> (res: String)
    ensures
        res@ == natives_text(bound_natives(program.units@, *program.actors), orcc),
{
    let mut scan = NativeScan::new();
    let mut i: usize = 0;
    while i < program.units.len()
        invariant
            0 <= i <= program.units@.len(),
            scan.inv(),
            scan.done@ == units_natives(program.units@.take(i as int)),
        decreases program.units.len() - i,
    {
        let u = &program.units[i];
        scan.add_all(&u.native_functions, &u.native_procedures);
        assert(program.units@.take(i + 1).drop_last() =~= program.units@.take(i as int));
        i = i + 1;
    }
    assert(program.units@.take(program.units@.len() as int) =~= program.units@);
    let ghost mid = scan.done@;
    let mut j: usize = 0;
    while j < program.actors.entries.len()
        invariant
            0 <= j <= program.actors.entries@.len(),
            scan.inv(),
            scan.done@ == mid + actors_natives(program.actors.entries@.take(j as int)),
        decreases program.actors.entries.len() - j,
    {
        let a = &program.actors.entries[j].1;
        let ghost prev = scan.done@;
        scan.add_all(&a.native_functions, &a.native_procedures);
        assert(program.actors.entries@.take(j + 1).drop_last() =~= program.actors.entries@.take(j as int));
        assert(scan.done@ =~= mid + actors_natives(program.actors.entries@.take(j + 1)));
        j = j + 1;
    }
    assert(program.actors.entries@.take(program.actors.entries@.len() as int) =~= program.actors.entries@);
    let mut out = owned("unsafe extern \"C\" {\n");
    out.append(scan.extern_fns.as_str());
    out.append(scan.extern_procs.as_str());
    out.append("}\n\n");
    out.append(scan.wrapper_fns.as_str());
    out.append(scan.wrapper_procs.as_str());
    out.append("\n");
    if orcc {
        out.append(OPTIONS_RS);
    } else {
        assert(out@ + Seq::<char>::empty() =~= out@);
    }
    out
}

/// The native functions among `ds`, in order.
pub open spec fn native_fns(ds: Seq<NativeDecl>) -> Seq<NativeFunction>
    decreases ds.len(),
{
    if ds.len() == 0 {
        Seq::empty()
    } else {
        native_fns(ds.drop_last()) + match ds.last() {
            NativeDecl::Function(f) => seq![f],
            NativeDecl::Procedure(_) => Seq::empty(),
        }
    }
}

/// The native procedures among `ds`, in order.
pub open spec fn native_procs(ds: Seq<NativeDecl>) -> Seq<NativeProcedure>
    decreases ds.len(),
{
    if ds.len() == 0 {
        Seq::empty()
    } else {
        native_procs(ds.drop_last()) + match ds.last() {
            NativeDecl::Function(_) => Seq::empty(),
            NativeDecl::Procedure(p) => seq![p],
        }
    }
}

/// The declarations of `ds` have pairwise different names.
pub open spec fn names_distinct(ds: Seq<NativeDecl>) -> bool {
    forall|i: int, j: int| 0 <= i < j < ds.len() ==> native_name(#[trigger] ds[i]) != native_name(#[trigger] ds[j])
}

/// The prototypes and wrappers of `ds` are one per function and one per
/// procedure among them; with distinct names, the functions and procedures
/// have pairwise different names, none shared between the two.
#[verifier::spinoff_prover]
proof fn natives_split(ds: Seq<NativeDecl>)
    ensures
        extern_fns_text(ds) == concat(native_fns(ds).map_values(|f: NativeFunction| extern_fn_text(f))),
        wrapper_fns_text(ds) == concat(native_fns(ds).map_values(|f: NativeFunction| wrapper_fn_text(f))),
        extern_procs_text(ds) == concat(native_procs(ds).map_values(|p: NativeProcedure| extern_proc_text(p))),
        wrapper_procs_text(ds) == concat(native_procs(ds).map_values(|p: NativeProcedure| wrapper_proc_text(p))),
        forall|f: NativeFunction| native_fns(ds).contains(f) <==> ds.contains(NativeDecl::Function(f)),
        forall|p: NativeProcedure| native_procs(ds).contains(p) <==> ds.contains(NativeDecl::Procedure(p)),
        names_distinct(ds) ==> forall|i: int, j: int|
            0 <= i < j < native_fns(ds).len() ==> (#[trigger] native_fns(ds)[i]).name@ != (#[trigger] native_fns(ds)[j]).name@,
        names_distinct(ds) ==> forall|i: int, j: int|
            0 <= i < j < native_procs(ds).len() ==> (#[trigger] native_procs(ds)[i]).name@ != (#[trigger] native_procs(ds)[j]).name@,
        names_distinct(ds) ==> forall|i: int, j: int|
            0 <= i < native_fns(ds).len() && 0 <= j < native_procs(ds).len() ==> (#[trigger] native_fns(ds)[i]).name@
                != (#[trigger] native_procs(ds)[j]).name@,
    decreases ds.len(),
{
    let ef = |f: NativeFunction| extern_fn_text(f);
    let wf = |f: NativeFunction| wrapper_fn_text(f);
    let ep = |p: NativeProcedure| extern_proc_text(p);
    let wp = |p: NativeProcedure| wrapper_proc_text(p);
    if ds.len() == 0 {
        assert(native_fns(ds).map_values(ef) =~= Seq::<Seq<char>>::empty());
        assert(native_fns(ds).map_values(wf) =~= Seq::<Seq<char>>::empty());
        assert(native_procs(ds).map_values(ep) =~= Seq::<Seq<char>>::empty());
        assert(native_procs(ds).map_values(wp) =~= Seq::<Seq<char>>::empty());
    } else {
        let pre = ds.drop_last();
        let x = ds.last();
        natives_split(pre);
        let fs = native_fns(pre);
        let ps = native_procs(pre);
        assert forall|d: NativeDecl| ds.contains(d) <==> (pre.contains(d) || d == x) by {
            if ds.contains(d) {
                let k = choose|k: int| 0 <= k < ds.len() && ds[k] == d;
                if k < pre.len() {
                    assert(pre[k] == d);
                }
            }
            if pre.contains(d) {
                let k = choose|k: int| 0 <= k < pre.len() && pre[k] == d;
                assert(ds[k] == d);
            }
            if d == x {
                assert(ds[ds.len() - 1] == d);
            }
        }
        if names_distinct(ds) {
            assert(names_distinct(pre)) by {
                assert forall|i: int, j: int| 0 <= i < j < pre.len() implies native_name(#[trigger] pre[i]) != native_name(#[trigger] pre[j]) by {
                    assert(pre[i] == ds[i] && pre[j] == ds[j]);
                }
            }
            assert forall|d: NativeDecl| pre.contains(d) implies native_name(d) != native_name(x) by {
                let k = choose|k: int| 0 <= k < pre.len() && pre[k] == d;
                assert(ds[k] == d);
            }
        }
        match x {
            NativeDecl::Function(f) => {
                assert(native_fns(ds) == fs + seq![f]);
                assert(native_procs(ds) == ps + Seq::<NativeProcedure>::empty());
                assert(native_procs(ds) =~= ps);
                assert((fs + seq![f]).map_values(ef).drop_last() =~= fs.map_values(ef));
                assert((fs + seq![f]).map_values(wf).drop_last() =~= fs.map_values(wf));
                assert forall|g: NativeFunction| native_fns(ds).contains(g) <==> ds.contains(NativeDecl::Function(g)) by {
                    if native_fns(ds).contains(g) {
                        let k = choose|k: int| 0 <= k < native_fns(ds).len() && native_fns(ds)[k] == g;
                        if k < fs.len() {
                            assert(fs[k] == g);
                            assert(fs.contains(g));
                        }
                    }
                    if fs.contains(g) {
                        let k = choose|k: int| 0 <= k < fs.len() && fs[k] == g;
                        assert(native_fns(ds)[k] == g);
                    }
                    if g == f {
                        assert(native_fns(ds)[fs.len() as int] == g);
                    }
                }
                if names_distinct(ds) {
                    assert forall|i: int, j: int| 0 <= i < j < native_fns(ds).len() implies (#[trigger] native_fns(ds)[i]).name@
                        != (#[trigger] native_fns(ds)[j]).name@ by {
                        if j == fs.len() {
                            assert(native_fns(ds)[i] == fs[i]);
                            assert(fs.contains(fs[i]));
                            assert(pre.contains(NativeDecl::Function(fs[i])));
                            assert(native_name(NativeDecl::Function(fs[i])) != native_name(x));
                        } else {
                            assert(native_fns(ds)[i] == fs[i] && native_fns(ds)[j] == fs[j]);
                        }
                    }
                    assert forall|i: int, j: int| 0 <= i < native_fns(ds).len() && 0 <= j < native_procs(ds).len() implies (
                    #[trigger] native_fns(ds)[i]).name@ != (#[trigger] native_procs(ds)[j]).name@ by {
                        if i == fs.len() {
                            assert(ps.contains(ps[j]));
                            assert(pre.contains(NativeDecl::Procedure(ps[j])));
                            assert(native_name(NativeDecl::Procedure(ps[j])) != native_name(x));
                        } else {
                            assert(native_fns(ds)[i] == fs[i]);
                        }
                    }
                }
            },
            NativeDecl::Procedure(p) => {
                assert(native_procs(ds) == ps + seq![p]);
                assert(native_fns(ds) == fs + Seq::<NativeFunction>::empty());
                assert(native_fns(ds) =~= fs);
                assert((ps + seq![p]).map_values(ep).drop_last() =~= ps.map_values(ep));
                assert((ps + seq![p]).map_values(wp).drop_last() =~= ps.map_values(wp));
                assert forall|g: NativeProcedure| native_procs(ds).contains(g) <==> ds.contains(NativeDecl::Procedure(g)) by {
                    if native_procs(ds).contains(g) {
                        let k = choose|k: int| 0 <= k < native_procs(ds).len() && native_procs(ds)[k] == g;
                        if k < ps.len() {
                            assert(ps[k] == g);
                            assert(ps.contains(g));
                        }
                    }
                    if ps.contains(g) {
                        let k = choose|k: int| 0 <= k < ps.len() && ps[k] == g;
                        assert(native_procs(ds)[k] == g);
                    }
                    if g == p {
                        assert(native_procs(ds)[ps.len() as int] == g);
                    }
                }
                if names_distinct(ds) {
                    assert forall|i: int, j: int| 0 <= i < j < native_procs(ds).len() implies (#[trigger] native_procs(ds)[i]).name@
                        != (#[trigger] native_procs(ds)[j]).name@ by {
                        if j == ps.len() {
                            assert(native_procs(ds)[i] == ps[i]);
                            assert(ps.contains(ps[i]));
                            assert(pre.contains(NativeDecl::Procedure(ps[i])));
                            assert(native_name(NativeDecl::Procedure(ps[i])) != native_name(x));
                        } else {
                            assert(native_procs(ds)[i] == ps[i] && native_procs(ds)[j] == ps[j]);
                        }
                    }
                    assert forall|i: int, j: int| 0 <= i < native_fns(ds).len() && 0 <= j < native_procs(ds).len() implies (
                    #[trigger] native_fns(ds)[i]).name@ != (#[trigger] native_procs(ds)[j]).name@ by {
                        if j == ps.len() {
                            assert(fs.contains(fs[i]));
                            assert(pre.contains(NativeDecl::Function(fs[i])));
                            assert(native_name(NativeDecl::Function(fs[i])) != native_name(x));
                        } else {
                            assert(native_procs(ds)[j] == ps[j]);
                        }
                    }
                }
            },
        }
    }
}

proof fn native_fn_texts_begin(f: NativeFunction)
    ensures
        ("    #[link_name = \""@ + f.name@ + "\"]\n    fn __crt_ffi_"@ + ident_text(f.name@) + "("@).is_prefix_of(extern_fn_text(f)),
        ("fn "@ + ident_text(f.name@) + "("@).is_prefix_of(wrapper_fn_text(f)),
{
    let a = "    #[link_name = \""@ + f.name@ + "\"]\n    fn __crt_ffi_"@ + ident_text(f.name@) + "("@;
    let b = "fn "@ + ident_text(f.name@) + "("@;
    assert(a =~= extern_fn_text(f).subrange(0, a.len() as int));
    assert(b =~= wrapper_fn_text(f).subrange(0, b.len() as int));
}

proof fn native_proc_texts_begin(p: NativeProcedure)
    ensures
        ("    #[link_name = \""@ + p.name@ + "\"]\n    fn __crt_ffi_"@ + ident_text(p.name@) + "("@).is_prefix_of(extern_proc_text(p)),
        ("fn "@ + ident_text(p.name@) + "("@).is_prefix_of(wrapper_proc_text(p)),
{
    let a = "    #[link_name = \""@ + p.name@ + "\"]\n    fn __crt_ffi_"@ + ident_text(p.name@) + "("@;
    let b = "fn "@ + ident_text(p.name@) + "("@;
    assert(a =~= extern_proc_text(p).subrange(0, a.len() as int));
    assert(b =~= wrapper_proc_text(p).subrange(0, b.len() as int));
}

/// Each native name gets one binding, its first declaration (units before
/// actors, functions before procedures, which share one namespace): the bound
/// declarations have pairwise different names, every declared name is bound,
/// and each bound declaration is the first of its name. In the emitted
/// bindings each bound function has one prototype, linked to its CAL name,
/// and one safe wrapper named by its identifier, and so has each bound
/// procedure.
#[verifier::spinoff_prover]
pub proof fn natives_bound_once(units: Seq<Unit>, actors: ActorMap, orcc: bool)
    ensures
        ({
            let all = program_natives(units, actors);
            let ds = bound_natives(units, actors);
            let fs = native_fns(ds);
            let ps = native_procs(ds);
            &&& names_of(ds, native_namer()) == names_of(all, native_namer())
            &&& names_distinct(ds)
            &&& forall|k: int|
                0 <= k < ds.len() ==> exists|p: int|
                    0 <= p < all.len() && all[p] == #[trigger] ds[k] && first_of_its_name(all, native_namer(), p)
            &&& natives_text(ds, orcc) == "unsafe extern \"C\" {\n"@ + concat(fs.map_values(|f: NativeFunction| extern_fn_text(f)))
                + concat(ps.map_values(|p: NativeProcedure| extern_proc_text(p))) + "}\n\n"@ + concat(
                fs.map_values(|f: NativeFunction| wrapper_fn_text(f)),
            ) + concat(ps.map_values(|p: NativeProcedure| wrapper_proc_text(p))) + "\n"@ + if orcc {
                OPTIONS_RS@
            } else {
                Seq::empty()
            }
            &&& forall|f: NativeFunction| fs.contains(f) <==> ds.contains(NativeDecl::Function(f))
            &&& forall|p: NativeProcedure| ps.contains(p) <==> ds.contains(NativeDecl::Procedure(p))
            &&& forall|i: int, j: int| 0 <= i < j < fs.len() ==> (#[trigger] fs[i]).name@ != (#[trigger] fs[j]).name@
            &&& forall|i: int, j: int| 0 <= i < j < ps.len() ==> (#[trigger] ps[i]).name@ != (#[trigger] ps[j]).name@
            &&& forall|i: int, j: int| 0 <= i < fs.len() && 0 <= j < ps.len() ==> (#[trigger] fs[i]).name@ != (#[trigger] ps[j]).name@
            &&& forall|f: NativeFunction|
                ("    #[link_name = \""@ + f.name@ + "\"]\n    fn __crt_ffi_"@ + ident_text(f.name@) + "("@).is_prefix_of(#[trigger] extern_fn_text(f)) && ("fn "@ + ident_text(f.name@)
                    + "("@).is_prefix_of(wrapper_fn_text(f))
            &&& forall|p: NativeProcedure|
                ("    #[link_name = \""@ + p.name@ + "\"]\n    fn __crt_ffi_"@ + ident_text(p.name@) + "("@).is_prefix_of(#[trigger] extern_proc_text(p)) && ("fn "@ + ident_text(p.name@)
                    + "("@).is_prefix_of(wrapper_proc_text(p))
        }),
{
    let all = program_natives(units, actors);
    let ds = bound_natives(units, actors);
    first_by_name_unique(all, native_namer());
    first_by_name_keeps_firsts(all, native_namer());
    natives_split(ds);
    assert forall|f: NativeFunction|
        ("    #[link_name = \""@ + f.name@ + "\"]\n    fn __crt_ffi_"@ + ident_text(f.name@) + "("@).is_prefix_of(#[trigger] extern_fn_text(f)) && ("fn "@ + ident_text(f.name@)
            + "("@).is_prefix_of(wrapper_fn_text(f)) by {
        native_fn_texts_begin(f);
    }
    assert forall|p: NativeProcedure|
        ("    #[link_name = \""@ + p.name@ + "\"]\n    fn __crt_ffi_"@ + ident_text(p.name@) + "("@).is_prefix_of(#[trigger] extern_proc_text(p)) && ("fn "@ + ident_text(p.name@)
            + "("@).is_prefix_of(wrapper_proc_text(p)) by {
        native_proc_texts_begin(p);
    }
}

/// The safe wrapper of a native function declares the function's Rust result
/// type and returns the C result converted to it: a function returning `bool`
/// compares the C integer with zero (`!= 0`, so any nonzero result is true),
/// any other casts the result with `as`.
pub proof fn native_wrapper_converts_result(f: NativeFunction)
    ensures
        ({
            let ret = rust_type_text(f.ret_type);
            let call = "unsafe { __crt_ffi_"@ + ident_text(f.name@) + "("@ + call_args_text(f.parameters@) + ")"@;
            let w = wrapper_fn_text(f);
            &&& ("fn "@ + ident_text(f.name@) + "("@ + wrapper_params_text(f.parameters@) + ") -> "@ + ret + " { "@).is_prefix_of(w)
            &&& ret == "bool"@ ==> (call + " != 0 }"@ + " }\n"@).is_suffix_of(w)
            &&& ret != "bool"@ ==> (call + " as "@ + ret + " }"@ + " }\n"@).is_suffix_of(w)
        }),
{
    let ret = rust_type_text(f.ret_type);
    let call = "unsafe { __crt_ffi_"@ + ident_text(f.name@) + "("@ + call_args_text(f.parameters@) + ")"@;
    let w = wrapper_fn_text(f);
    let head = "fn "@ + ident_text(f.name@) + "("@ + wrapper_params_text(f.parameters@) + ") -> "@ + ret + " { "@;
    let body = if ret == "bool"@ {
        call + " != 0 }"@
    } else {
        call + " as "@ + ret + " }"@
    };
    assert(w =~= head + (body + " }\n"@));
    assert(head =~= w.subrange(0, head.len() as int));
    assert((body + " }\n"@) =~= w.subrange(w.len() - (body + " }\n"@).len(), w.len() as int));
}

} // verus!
