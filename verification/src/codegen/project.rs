//! The files around the generated sources: the Cargo manifest, and the build
//! script that compiles the network's native C sources.
use vstd::prelude::*;

use crate::text::{cat2, cat3, concat, owned, push_char, str_eq};

verus! {

/// An ASCII letter or digit.
pub open spec fn is_ascii_alphanumeric(c: char) -> bool {
    ('a' <= c && c <= 'z') || ('A' <= c && c <= 'Z') || ('0' <= c && c <= '9')
}

/// The ASCII lower case of a character; other characters stay.
pub open spec fn ascii_lower(c: char) -> char {
    if 'A' <= c && c <= 'Z' {
        ((c as u32) + 32) as char
    } else {
        c
    }
}

/// A character of a Cargo package name: ASCII letters and digits in lower
/// case, `-` and `_` as they are, anything else `_`.
pub open spec fn package_char(c: char) -> char {
    if is_ascii_alphanumeric(c) || c == '-' || c == '_' {
        ascii_lower(c)
    } else {
        '_'
    }
}

/// The Cargo package name for a network name: each character mapped by
/// `package_char`, with `_` in front when the result is empty or starts with
/// a digit.
pub open spec fn cargo_package_name_text(name: Seq<char>) -> Seq<char> {
    let mapped = name.map_values(|c: char| package_char(c));
    if mapped.len() == 0 || ('0' <= mapped[0] && mapped[0] <= '9') {
        seq!['_'] + mapped
    } else {
        mapped
    }
}

fn lower_char(c: char) -> (res: char)
    ensures
        res == ascii_lower(c),
{
    if 'A' <= c && c <= 'Z' {
        let b = (c as u8) + 32;
        let r = b as char;
        assert(r == ((c as u32) + 32) as char);
        r
    } else {
        c
    }
}

/// The Cargo package name for a network name.
pub fn cargo_package_name(name: &str) -> (res: String)
    ensures
        res@ == cargo_package_name_text(name@),
{
    let n = name.unicode_len();
    let ghost mapped = name@.map_values(|c: char| package_char(c));
    let mut out = String::new();
    let mut i: usize = 0;
    while i < n
        invariant
            n == name@.len(),
            0 <= i <= n,
            mapped == name@.map_values(|c: char| package_char(c)),
            out@ == mapped.take(i as int),
        decreases n - i,
    {
        let c = name.get_char(i);
        let keep = ('a' <= c && c <= 'z') || ('A' <= c && c <= 'Z') || ('0' <= c && c <= '9') || c == '-' || c == '_';
        let d = if keep {
            lower_char(c)
        } else {
            '_'
        };
        push_char(&mut out, d);
        assert(mapped.take(i + 1) =~= mapped.take(i as int).push(mapped[i as int]));
        i = i + 1;
    }
    assert(mapped.take(n as int) =~= mapped);
    let needs_prefix = if n == 0 {
        true
    } else {
        let first = out.as_str().get_char(0);
        '0' <= first && first <= '9'
    };
    if needs_prefix {
        let mut res = String::new();
        push_char(&mut res, '_');
        res.append(out.as_str());
        assert(res@ =~= seq!['_'] + out@);
        res
    } else {
        out
    }
}

/// The Cargo manifest of the generated project: the package, the backend's
/// dependencies, clap for the orcc front end when requested, the C compiler
/// driver when the network has natives, and an optimized release profile.
pub open spec fn cargo_toml_text(package_name: Seq<char>, has_natives: bool, extra_deps: Seq<char>, orcc: bool) -> Seq<char> {
    "[package]\nname = \""@ + cargo_package_name_text(package_name) + "\"\nversion = \"0.1.0\"\nedition = \"2024\"\n\n[dependencies]\n"@
        + extra_deps + (if orcc {
        "clap = { version = \"4\", features = [\"derive\"] }\n"@
    } else {
        Seq::empty()
    }) + (if has_natives {
        "\n[build-dependencies]\ncc = \"1\"\n"@
    } else {
        Seq::empty()
    }) + "\n[profile.release]\nlto = true\ncodegen-units = 1\n"@
}

/// Writes the Cargo manifest of the generated project, as text.
pub fn write_cargo_toml(package_name: &str, has_natives: bool, extra_deps: &str, orcc: bool) -> (res: String)
    ensures
        res@ == cargo_toml_text(package_name@, has_natives, extra_deps@, orcc),
{
    let name = cargo_package_name(package_name);
    let mut out = cat3("[package]\nname = \"", name.as_str(), "\"\nversion = \"0.1.0\"\nedition = \"2024\"\n\n[dependencies]\n");
    out.append(extra_deps);
    let clap = if orcc {
        owned("clap = { version = \"4\", features = [\"derive\"] }\n")
    } else {
        String::new()
    };
    let cc = if has_natives {
        owned("\n[build-dependencies]\ncc = \"1\"\n")
    } else {
        String::new()
    };
    out.append(clap.as_str());
    out.append(cc.as_str());
    out.append("\n[profile.release]\nlto = true\ncodegen-units = 1\n");
    out
}

/// Whether `k` is the position of the last `.` of `name`.
pub open spec fn last_dot_at(name: Seq<char>, k: int) -> bool {
    &&& 0 <= k < name.len()
    &&& name[k] == '.'
    &&& forall|j: int| k < j < name.len() ==> #[trigger] name[j] != '.'
}

/// The extension of a file name, as `Path::extension` finds it: what follows
/// the last `.`, unless there is none, it begins the name, or the name is `..`.
pub open spec fn extension_of(name: Seq<char>) -> Option<Seq<char>> {
    if exists|k: int| last_dot_at(name, k) {
        let k = choose|k: int| last_dot_at(name, k);
        if k == 0 || name == seq!['.', '.'] {
            None
        } else {
            Some(name.subrange(k + 1, name.len() as int))
        }
    } else {
        None
    }
}

/// The extension of a file name in ASCII lower case.
pub open spec fn lowered_extension(name: Seq<char>) -> Option<Seq<char>> {
    match extension_of(name) {
        Some(e) => Some(e.map_values(|c: char| ascii_lower(c))),
        None => None,
    }
}

/// The extension of a file name in ASCII lower case.
pub fn file_extension(name: &str) -> (res: Option<String>)
    ensures
        match res {
            Some(e) => lowered_extension(name@) == Some(e@),
            None => lowered_extension(name@) is None,
        },
{
    let n = name.unicode_len();
    let mut k: usize = n;
    let mut found = false;
    while k > 0 && !found
        invariant
            n == name@.len(),
            0 <= k <= n,
            found ==> k > 0 && name@[k - 1] == '.',
            forall|j: int| k <= j < n ==> #[trigger] name@[j] != '.',
        decreases k + if found {
            0int
        } else {
            1int
        },
    {
        if name.get_char(k - 1) == '.' {
            found = true;
        } else {
            k = k - 1;
        }
    }
    if !found {
        assert(!exists|q: int| last_dot_at(name@, q));
        return None;
    }
    let dot = k - 1;
    assert(last_dot_at(name@, dot as int));
    proof {
        let q = choose|q: int| last_dot_at(name@, q);
        if q < dot {
            assert(name@[dot as int] != '.');
        }
        if q > dot {
            assert(name@[q] != '.');
        }
    }
    if dot == 0 {
        return None;
    }
    if n == 2 && name.get_char(0) == '.' {
        assert(name@ =~= seq!['.', '.']);
        return None;
    }
    assert(name@ != seq!['.', '.']) by {
        if name@ == seq!['.', '.'] {
            assert(name@[0] == '.');
        }
    }
    let ghost ext = name@.subrange(dot + 1, n as int);
    let ghost lowered = ext.map_values(|c: char| ascii_lower(c));
    let mut out = String::new();
    let mut i: usize = dot + 1;
    while i < n
        invariant
            n == name@.len(),
            dot + 1 <= i <= n,
            ext == name@.subrange(dot + 1, n as int),
            lowered == ext.map_values(|c: char| ascii_lower(c)),
            out@ == lowered.take(i - dot - 1),
        decreases n - i,
    {
        let c = name.get_char(i);
        let d = lower_char(c);
        push_char(&mut out, d);
        assert(lowered.take(i + 1 - dot - 1) =~= lowered.take(i - dot - 1).push(lowered[i - dot - 1]));
        i = i + 1;
    }
    assert(lowered.take(n - dot - 1) =~= lowered);
    Some(out)
}

/// Whether a native file is compiled as a translation unit: a C or C++
/// source by its extension.
pub open spec fn is_translation_unit_name(name: Seq<char>) -> bool {
    match lowered_extension(name) {
        Some(e) => e == "c"@ || e == "cpp"@ || e == "cc"@ || e == "cxx"@,
        None => false,
    }
}

/// Whether a native file is compiled as a translation unit.
pub fn is_translation_unit(name: &str) -> (res: bool)
    ensures
        res == is_translation_unit_name(name@),
{
    match file_extension(name) {
        Some(e) => {
            let s = e.as_str();
            str_eq(s, "c") || str_eq(s, "cpp") || str_eq(s, "cc") || str_eq(s, "cxx")
        },
        None => false,
    }
}

/// Whether a file found among the native sources is one: a C or C++ source or
/// header by its extension.
pub open spec fn is_native_source_name(name: Seq<char>) -> bool {
    match lowered_extension(name) {
        Some(e) => e == "c"@ || e == "cpp"@ || e == "cc"@ || e == "cxx"@ || e == "h"@ || e == "hpp"@ || e == "hh"@ || e == "hxx"@,
        None => false,
    }
}

/// Whether a file found among the native sources is one.
pub fn is_native_source(name: &str) -> (res: bool)
    ensures
        res == is_native_source_name(name@),
{
    match file_extension(name) {
        Some(e) => {
            let s = e.as_str();
            str_eq(s, "c") || str_eq(s, "cpp") || str_eq(s, "cc") || str_eq(s, "cxx") || str_eq(s, "h") || str_eq(s, "hpp")
                || str_eq(s, "hh") || str_eq(s, "hxx")
        },
        None => false,
    }
}

/// The names of the translation units among the native files, in order.
pub open spec fn translation_units(names: Seq<String>) -> Seq<Seq<char>>
    decreases names.len(),
{
    if names.len() == 0 {
        Seq::empty()
    } else {
        let rest = translation_units(names.drop_last());
        if is_translation_unit_name(names.last()@) {
            rest.push(names.last()@)
        } else {
            rest
        }
    }
}

/// Whether the project needs the orcc `options.h` header written: orcc
/// support is requested and no native file is named `options.h`.
pub open spec fn needs_options_header_spec(names: Seq<String>, orcc: bool) -> bool {
    orcc && forall|i: int| 0 <= i < names.len() ==> (#[trigger] names[i])@ != "options.h"@
}

/// Whether the project needs the orcc `options.h` header written.
pub fn needs_options_header(names: &Vec<String>, orcc: bool) -> (res: bool)
    ensures
        res == needs_options_header_spec(names@, orcc),
{
    if !orcc {
        return false;
    }
    let mut i: usize = 0;
    while i < names.len()
        invariant
            0 <= i <= names@.len(),
            forall|j: int| 0 <= j < i ==> (#[trigger] names@[j])@ != "options.h"@,
        decreases names.len() - i,
    {
        if str_eq(names[i].as_str(), "options.h") {
            return false;
        }
        i = i + 1;
    }
    true
}

/// The build script that compiles the translation units among the native
/// files, in order, into one library.
pub open spec fn build_script_text(names: Seq<String>) -> Seq<char> {
    "fn main() {\n    cc::Build::new()\n        .flag(\"-x\")\n        .flag(\"c\")\n        .include(\"native\")\n        .opt_level(3)\n"@ + concat(
        translation_units(names).map_values(|n: Seq<char>| "        .file(\"native/"@ + n + "\")\n"@),
    ) + "        .compile(\"crt_native\");\n    println!(\"cargo:rerun-if-changed=native\");\n}\n"@
}

/// The build script that compiles the translation units among the native
/// files.
pub fn build_script(names: &Vec<String>) -> (res: String)
    ensures
        res@ == build_script_text(names@),
{
    let ghost f = |n: Seq<char>| "        .file(\"native/"@ + n + "\")\n"@;
    let mut files = String::new();
    let mut i: usize = 0;
    while i < names.len()
        invariant
            0 <= i <= names@.len(),
            f == (|n: Seq<char>| "        .file(\"native/"@ + n + "\")\n"@),
            files@ == concat(translation_units(names@.take(i as int)).map_values(f)),
        decreases names.len() - i,
    {
        assert(names@.take(i + 1).drop_last() =~= names@.take(i as int));
        if is_translation_unit(names[i].as_str()) {
            let line = cat3("        .file(\"native/", names[i].as_str(), "\")\n");
            files.append(line.as_str());
            let ghost units = translation_units(names@.take(i as int));
            assert(units.push(names@[i as int]@).map_values(f).drop_last() =~= units.map_values(f));
        }
        i = i + 1;
    }
    assert(names@.take(names@.len() as int) =~= names@);
    let mut out = cat2(
        "fn main() {\n    cc::Build::new()\n        .flag(\"-x\")\n        .flag(\"c\")\n        .include(\"native\")\n        .opt_level(3)\n",
        files.as_str(),
    );
    out.append("        .compile(\"crt_native\");\n    println!(\"cargo:rerun-if-changed=native\");\n}\n");
    out
}

/// A character Cargo accepts in the package names made here.
pub open spec fn is_package_char(c: char) -> bool {
    ('a' <= c && c <= 'z') || ('0' <= c && c <= '9') || c == '-' || c == '_'
}

/// Every package name made from a network name is nonempty, does not start
/// with a digit, and holds only lower case ASCII letters, digits, `-` and `_`.
pub proof fn cargo_package_name_is_valid(name: Seq<char>)
    ensures
        ({
            let p = cargo_package_name_text(name);
            &&& p.len() > 0
            &&& !('0' <= p[0] && p[0] <= '9')
            &&& forall|i: int| 0 <= i < p.len() ==> is_package_char(#[trigger] p[i])
        }),
{
    let mapped = name.map_values(|c: char| package_char(c));
    assert forall|i: int| 0 <= i < mapped.len() implies is_package_char(#[trigger] mapped[i]) by {
        let c = name[i];
        if 'A' <= c && c <= 'Z' {
            assert(((c as u32) + 32) as char == ascii_lower(c));
            assert('a' <= ascii_lower(c) && ascii_lower(c) <= 'z');
        }
    }
    let p = cargo_package_name_text(name);
    if mapped.len() == 0 || ('0' <= mapped[0] && mapped[0] <= '9') {
        assert forall|i: int| 0 <= i < p.len() implies is_package_char(#[trigger] p[i]) by {
            if i > 0 {
                assert(p[i] == mapped[i - 1]);
            }
        }
    }
}

} // verus!
