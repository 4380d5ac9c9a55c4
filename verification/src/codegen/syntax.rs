//! Checking generated source text as Rust: the text is lexed into tokens and
//! parsed as a file, each failure with its own message.
use vstd::prelude::*;

use crate::text::{cat2, cat3};

verus! {

#[verifier::external_type_specification]
#[verifier::external_body]
pub struct ExFile(syn::File);

/// Whether proc-macro2's lexer accepts `source` as a token stream.
pub uninterp spec fn rust_lexes(source: Seq<char>) -> bool;

/// The text proc-macro2's own lexer gives for every source it rejects.
pub open spec fn lex_error_message() -> Seq<char> {
    "cannot parse string into token stream"@
}

/// `<proc_macro2::TokenStream as FromStr>::from_str`: lexes `source`, keeping
/// only whether it succeeded and, if not, the `Display` text of the error.
/// Claimed: success depends on the source alone; outside a procedural macro
/// proc-macro2 runs its own lexer, which returns (does not panic on) its
/// errors and displays each of them as `lex_error_message()`.
#[verifier::external_body]
fn tokenize(source: &str) -> (res: Result<(), String>)
    ensures
        res is Ok <==> rust_lexes(source@),
        res matches Err(m) ==> m@ == lex_error_message(),
{
    match <proc_macro2::TokenStream as core::str::FromStr>::from_str(source) {
        Ok(_) => Ok(()),
        Err(e) => Err(format!("{e}")),
    }
}

/// Whether syn accepts `source` as a Rust file.
pub uninterp spec fn rust_file_parses(source: Seq<char>) -> bool;

/// The file syn parses `source` into.
pub uninterp spec fn parsed_rust_file(source: Seq<char>) -> syn::File;

/// The `Display` text of the error syn gives when `source` is not a Rust file.
pub uninterp spec fn parse_error_message(source: Seq<char>) -> Seq<char>;

/// `syn::parse_str::<syn::File>`: lexes `source` with proc-macro2 and parses
/// the tokens as a Rust file, as `syn::parse2` does; an error is kept as its
/// `Display` text (the first message of the `syn::Error`). Claimed: whether it
/// succeeds, the file it gives and the error text depend on the source alone.
#[verifier::external_body]
fn parse_file(source: &str) -> (res: Result<syn::File, String>)
    ensures
        res is Ok <==> rust_file_parses(source@),
        res matches Ok(f) ==> f == parsed_rust_file(source@),
        res matches Err(m) ==> m@ == parse_error_message(source@),
{
    match syn::parse_str::<syn::File>(source) {
        Ok(file) => Ok(file),
        Err(e) => Err(format!("{e}")),
    }
}

/// The message when the generated source of file `name` does not lex.
pub open spec fn lex_failure_text(name: Seq<char>, err: Seq<char>, source: Seq<char>) -> Seq<char> {
    "generated source for "@ + name + " failed to tokenize: "@ + err + "\n--- source ---\n"@ + source
}

/// The message when the generated source of file `name` does not lex.
pub fn lex_failure_message(name: &str, err: &str, source: &str) -> (res: String)
    ensures
        res@ == lex_failure_text(name@, err@, source@),
{
    let mut out = cat3("generated source for ", name, " failed to tokenize: ");
    out.append(err);
    out.append("\n--- source ---\n");
    out.append(source);
    out
}

/// The message when the tokens of a generated file do not parse as Rust.
pub open spec fn parse_failure_text(err: Seq<char>) -> Seq<char> {
    "generated tokens are not a valid Rust file: "@ + err
}

/// The message when the tokens of a generated file do not parse as Rust.
pub fn parse_failure_message(err: &str) -> (res: String)
    ensures
        res@ == parse_failure_text(err@),
{
    cat2("generated tokens are not a valid Rust file: ", err)
}

/// The generated source of file `name` as a parsed Rust file; a source
/// that does not lex, or whose tokens do not form a Rust file, is an error
/// that says so. Printing the file is left to the caller.
pub fn parse_rust(name: &str, source: &str) -> (res: Result<syn::File, String>)
    ensures
        res is Ok <==> rust_lexes(source@) && rust_file_parses(source@),
        res matches Ok(f) ==> f == parsed_rust_file(source@),
        !rust_lexes(source@) ==> (res matches Err(e) && e@ == lex_failure_text(name@, lex_error_message(), source@)),
        rust_lexes(source@) && !rust_file_parses(source@) ==> (res matches Err(e) && e@ == parse_failure_text(
            parse_error_message(source@),
        )),
{
    match tokenize(source) {
        Err(m) => Err(lex_failure_message(name, m.as_str(), source)),
        Ok(()) => match parse_file(source) {
            Err(m) => Err(parse_failure_message(m.as_str())),
            Ok(file) => Ok(file),
        },
    }
}

} // verus!
